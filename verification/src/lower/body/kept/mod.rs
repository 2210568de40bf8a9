//! What lowering a body keeps.

use vstd::prelude::*;

use crate::ast::{
    BinaryOp as AstBinary, Binding, Block, Branch, CatchClause, Expr, FieldBinding, FieldInit,
    FieldPattern, FunctionBody, IfBranch, InterpolationPart, MapEntry, MatchArm, Param, Pattern,
    Payload, Stmt, UnaryOp as AstUnary,
};
use crate::inst::{one, InstKindView, MethodId, TerminatorView, Value};
use crate::lower::names::{in_body, Seeking};
use crate::program::{id_limit, BlockId, FieldView, FuncId, FunctionView, VariantView};
use crate::sema::{BuiltinCall, CollectionMutation, Intrinsic, OverflowMethod};
use crate::span::Span;
use crate::ty::{TyView, TypeId};

use super::{ArrivalView, BodyView, CalleeView, Cleanup, HandlerView, LoopView};
use super::calls::{captured_types, closure_name};
use super::deeper::{deeper, Deeper};
use super::derived::Ways;
use super::flow::{arrived, declared_fields, merged, nothing_carried, one_carried, vars_in};
use super::given::{bound_params_view, Bound, Given};
use super::iterate::{CountedView, Source};
use super::kinds::{function_of_view, optional, thrown_or_view};
use super::lookups::CapturesView;

verus! {

/// Whether a body came about by lowering more into another: it is a body of the
/// same function, nothing written is taken back, nothing reported is withdrawn,
/// and the closures built on the way took the ids that were next, in order.
#[verifier::opaque]
pub open spec fn carries_on(before: BodyView, after: BodyView) -> bool {
    &&& after.context == before.context
    &&& after.throws == before.throws
    &&& after.declared == before.declared
    &&& after.mutated == before.mutated
    &&& before.gaps.is_prefix_of(after.gaps)
    &&& after.function.name == before.function.name
    &&& after.function.type_params == before.function.type_params
    &&& after.function.params == before.function.params
    &&& after.function.result == before.function.result
    &&& after.function.entry == before.function.entry
    &&& before.function.values.is_prefix_of(after.function.values)
    &&& before.function.slots.is_prefix_of(after.function.slots)
    &&& before.function.blocks.len() <= after.function.blocks.len()
    &&& before.made.is_prefix_of(after.made)
    &&& after.next_function - before.next_function == after.made.len() - before.made.len()
    &&& forall|i: int|
        before.made.len() <= i < after.made.len() ==> (#[trigger] after.made[i]).0 == FuncId(
            (before.next_function + i - before.made.len()) as u32,
        )
}

/// A body carries on from itself.
pub proof fn still<'a>(b: BodyView<'a>)
    ensures
        carries_on(b, b),
{
    reveal(carries_on);
}

pub(crate) broadcast proof fn gap_carries_on<'a>(
    origin: BodyView<'a>,
    b: BodyView<'a>,
    span: Span,
    what: Seq<char>,
)
    requires
        carries_on(origin, b),
    ensures
        #[trigger] carries_on(origin, b.gap(span, what)),
{
    reveal(carries_on);
    reveal(BodyView::gap);
}

pub(crate) broadcast proof fn emit_carries_on<'a>(
    origin: BodyView<'a>,
    b: BodyView<'a>,
    kind: InstKindView,
    ty: TyView,
    span: Span,
)
    requires
        carries_on(origin, b),
    ensures
        #[trigger] carries_on(origin, b.emit(kind, ty, span).0),
{
    reveal(carries_on);
    reveal(BodyView::gap);
    reveal(BodyView::emit);
}

pub(crate) broadcast proof fn emit_void_carries_on<'a>(
    origin: BodyView<'a>,
    b: BodyView<'a>,
    kind: InstKindView,
    span: Span,
)
    requires
        carries_on(origin, b),
    ensures
        #[trigger] carries_on(origin, b.emit_void(kind, span)),
{
    reveal(carries_on);
    reveal(BodyView::emit_void);
}

pub(crate) broadcast proof fn terminate_carries_on<'a>(
    origin: BodyView<'a>,
    b: BodyView<'a>,
    term: TerminatorView,
)
    requires
        carries_on(origin, b),
    ensures
        #[trigger] carries_on(origin, b.terminate(term)),
{
    reveal(carries_on);
    reveal(BodyView::terminate);
}

pub(crate) broadcast proof fn add_block_carries_on<'a>(
    origin: BodyView<'a>,
    b: BodyView<'a>,
    span: Span,
)
    requires
        carries_on(origin, b),
    ensures
        #[trigger] carries_on(origin, b.add_block(span).0),
{
    reveal(carries_on);
    reveal(BodyView::gap);
    reveal(BodyView::add_block);
}

pub(crate) broadcast proof fn add_block_param_carries_on<'a>(
    origin: BodyView<'a>,
    b: BodyView<'a>,
    block: BlockId,
    ty: TyView,
    span: Span,
)
    requires
        carries_on(origin, b),
    ensures
        #[trigger] carries_on(origin, b.add_block_param(block, ty, span).0),
{
    reveal(carries_on);
    reveal(BodyView::gap);
    reveal(BodyView::add_block_param);
}

pub(crate) broadcast proof fn add_slot_carries_on<'a>(
    origin: BodyView<'a>,
    b: BodyView<'a>,
    var: u32,
    ty: TyView,
    span: Span,
)
    requires
        carries_on(origin, b),
    ensures
        #[trigger] carries_on(origin, b.add_slot(var, ty, span).0),
{
    reveal(carries_on);
    reveal(BodyView::gap);
    reveal(BodyView::add_slot);
}

pub(crate) broadcast proof fn switch_to_carries_on<'a>(
    origin: BodyView<'a>,
    b: BodyView<'a>,
    block: BlockId,
)
    requires
        carries_on(origin, b),
    ensures
        #[trigger] carries_on(origin, b.switch_to(block)),
{
    reveal(carries_on);
    reveal(BodyView::switch_to);
}

pub(crate) broadcast proof fn declare_carries_on<'a>(
    origin: BodyView<'a>,
    b: BodyView<'a>,
    name: Seq<char>,
)
    requires
        carries_on(origin, b),
    ensures
        #[trigger] carries_on(origin, b.declare(name).0),
{
    reveal(carries_on);
    reveal(BodyView::declare);
}

pub(crate) broadcast proof fn open_carries_on<'a>(
    origin: BodyView<'a>,
    b: BodyView<'a>,
)
    requires
        carries_on(origin, b),
    ensures
        #[trigger] carries_on(origin, b.open()),
{
    reveal(carries_on);
    reveal(BodyView::open);
}

pub(crate) broadcast proof fn drop_scope_carries_on<'a>(
    origin: BodyView<'a>,
    b: BodyView<'a>,
)
    requires
        carries_on(origin, b),
    ensures
        #[trigger] carries_on(origin, b.drop_scope()),
{
    reveal(carries_on);
    reveal(BodyView::drop_scope);
}

pub(crate) broadcast proof fn defer_carries_on<'a>(
    origin: BodyView<'a>,
    b: BodyView<'a>,
    cleanup: Cleanup<'a>,
)
    requires
        carries_on(origin, b),
    ensures
        #[trigger] carries_on(origin, b.defer(cleanup)),
{
    reveal(carries_on);
    reveal(BodyView::defer);
}

pub(crate) broadcast proof fn push_handler_carries_on<'a>(
    origin: BodyView<'a>,
    b: BodyView<'a>,
    handler: HandlerView,
)
    requires
        carries_on(origin, b),
    ensures
        #[trigger] carries_on(origin, b.push_handler(handler)),
{
    reveal(carries_on);
    reveal(BodyView::push_handler);
}

pub(crate) broadcast proof fn pop_handler_carries_on<'a>(
    origin: BodyView<'a>,
    b: BodyView<'a>,
)
    requires
        carries_on(origin, b),
    ensures
        #[trigger] carries_on(origin, b.pop_handler()),
{
    reveal(carries_on);
    reveal(BodyView::pop_handler);
}

pub(crate) broadcast proof fn push_loop_carries_on<'a>(
    origin: BodyView<'a>,
    b: BodyView<'a>,
    held: LoopView,
)
    requires
        carries_on(origin, b),
    ensures
        #[trigger] carries_on(origin, b.push_loop(held)),
{
    reveal(carries_on);
    reveal(BodyView::push_loop);
}

pub(crate) broadcast proof fn pop_loop_carries_on<'a>(
    origin: BodyView<'a>,
    b: BodyView<'a>,
)
    requires
        carries_on(origin, b),
    ensures
        #[trigger] carries_on(origin, b.pop_loop()),
{
    reveal(carries_on);
    reveal(BodyView::pop_loop);
}

pub(crate) broadcast proof fn set_def_carries_on<'a>(
    origin: BodyView<'a>,
    b: BodyView<'a>,
    var: u32,
    value: Value,
)
    requires
        carries_on(origin, b),
    ensures
        #[trigger] carries_on(origin, b.set_def(var, value)),
{
    reveal(carries_on);
    reveal(BodyView::set_def);
}

pub(crate) broadcast proof fn restore_carries_on<'a>(
    origin: BodyView<'a>,
    b: BodyView<'a>,
    defs: Map<u32, Value>,
)
    requires
        carries_on(origin, b),
    ensures
        #[trigger] carries_on(origin, b.restore(defs)),
{
    reveal(carries_on);
    reveal(BodyView::restore);
}

pub(crate) broadcast proof fn begin_constant_carries_on<'a>(
    origin: BodyView<'a>,
    b: BodyView<'a>,
    name: Seq<char>,
)
    requires
        carries_on(origin, b),
    ensures
        #[trigger] carries_on(origin, b.begin_constant(name)),
{
    reveal(carries_on);
    reveal(BodyView::begin_constant);
}

pub(crate) broadcast proof fn end_constant_carries_on<'a>(
    origin: BodyView<'a>,
    b: BodyView<'a>,
)
    requires
        carries_on(origin, b),
    ensures
        #[trigger] carries_on(origin, b.end_constant()),
{
    reveal(carries_on);
    reveal(BodyView::end_constant);
}

pub(crate) broadcast proof fn recorded_carries_on<'a>(
    origin: BodyView<'a>,
    b: BodyView<'a>,
    span: Span,
)
    requires
        carries_on(origin, b),
    ensures
        #[trigger] carries_on(origin, b.recorded(span).0),
{
    reveal(carries_on);
    reveal(BodyView::gap);
    reveal(BodyView::recorded);
}

pub(crate) broadcast proof fn declared_type_carries_on<'a>(
    origin: BodyView<'a>,
    b: BodyView<'a>,
    span: Span,
)
    requires
        carries_on(origin, b),
    ensures
        #[trigger] carries_on(origin, b.declared_type(span).0),
{
    reveal(carries_on);
    reveal(BodyView::gap);
    reveal(BodyView::declared_type);
}

pub(crate) broadcast proof fn rejoin_carries_on<'a>(
    origin: BodyView<'a>,
    b: BodyView<'a>,
    block: BlockId,
    join: BlockId,
    args: Seq<Value>,
)
    requires
        carries_on(origin, b),
    ensures
        #[trigger] carries_on(origin, b.rejoin(block, join, args)),
{
    reveal(carries_on);
    reveal(BodyView::rejoin);
}

proof fn merging_carries_on<'a>(
    origin: BodyView<'a>,
    b: BodyView<'a>,
    arrivals: Seq<ArrivalView>,
    join: BlockId,
    vars: Seq<u32>,
    span: Span,
    count: nat,
)
    requires
        carries_on(origin, b),
    ensures
        carries_on(origin, merged(b, arrivals, join, vars, span, count).0),
    decreases count,
{
    broadcast use add_block_param_carries_on;

    if count > 0 {
        merging_carries_on(origin, b, arrivals, join, vars, span, (count - 1) as nat);
    }
}

proof fn arriving_carries_on<'a>(
    origin: BodyView<'a>,
    b: BodyView<'a>,
    arrivals: Seq<ArrivalView>,
    carried: Seq<Seq<Value>>,
    join: BlockId,
    params: Seq<u32>,
    count: nat,
)
    requires
        carries_on(origin, b),
    ensures
        carries_on(origin, arrived(b, arrivals, carried, join, params, count)),
    decreases count,
{
    broadcast use rejoin_carries_on;

    if count > 0 {
        arriving_carries_on(origin, b, arrivals, carried, join, params, (count - 1) as nat);
    }
}

proof fn meeting_carries_on<'a>(
    origin: BodyView<'a>,
    b: BodyView<'a>,
    arrivals: Seq<ArrivalView>,
    carried: Seq<Seq<Value>>,
    join: BlockId,
    span: Span,
)
    requires
        carries_on(origin, b),
    ensures
        carries_on(origin, b.met(arrivals, carried, join, span)),
{
    broadcast use {switch_to_carries_on, restore_carries_on};

    let vars = vars_in(b.scopes, b.scopes.len());
    let (after, defs, params) = merged(b, arrivals, join, vars, span, vars.len());
    merging_carries_on(origin, b, arrivals, join, vars, span, vars.len());
    arriving_carries_on(origin, after, arrivals, carried, join, params, arrivals.len());
}

pub(crate) broadcast proof fn join_carries_on<'a>(
    origin: BodyView<'a>,
    b: BodyView<'a>,
    arrivals: Seq<ArrivalView>,
    join: BlockId,
    span: Span,
)
    requires
        carries_on(origin, b),
    ensures
        #[trigger] carries_on(origin, b.join(arrivals, join, span)),
{
    broadcast use {switch_to_carries_on, terminate_carries_on};

    reveal(BodyView::join);
    if arrivals.len() > 0 {
        meeting_carries_on(origin, b, arrivals, nothing_carried(arrivals.len()), join, span);
    }
}

pub(crate) broadcast proof fn join_carrying_carries_on<'a>(
    origin: BodyView<'a>,
    b: BodyView<'a>,
    arrivals: Seq<ArrivalView>,
    values: Seq<Value>,
    join: BlockId,
    ty: TyView,
    span: Span,
)
    requires
        carries_on(origin, b),
    ensures
        #[trigger] carries_on(origin, b.join_carrying(arrivals, values, join, ty, span).0),
{
    broadcast use {switch_to_carries_on, terminate_carries_on, add_block_param_carries_on};

    reveal(BodyView::join_carrying);
    let (after, value) = b.add_block_param(join, ty, span);
    assert(carries_on(origin, after));
    if arrivals.len() > 0 && values.len() == arrivals.len() {
        meeting_carries_on(origin, after, arrivals, one_carried(values), join, span);
    }
}

proof fn declaring_fields_carries_on<'a>(
    origin: BodyView<'a>,
    b: BodyView<'a>,
    fields: Seq<FieldBinding>,
    count: nat,
)
    requires
        carries_on(origin, b),
    ensures
        carries_on(origin, declared_fields(b, fields, count)),
    decreases count,
{
    broadcast use declare_carries_on;

    if count > 0 {
        declaring_fields_carries_on(origin, b, fields, (count - 1) as nat);
    }
}

pub(crate) broadcast proof fn declare_binding_carries_on<'a>(
    origin: BodyView<'a>,
    b: BodyView<'a>,
    binding: Binding,
)
    requires
        carries_on(origin, b),
    ensures
        #[trigger] carries_on(origin, b.declare_binding(binding)),
    decreases binding, 0nat,
{
    broadcast use declare_carries_on;

    match binding {
        Binding::Record(fields) => {
            declaring_fields_carries_on(origin, b, fields@, fields@.len());
        },
        Binding::Tuple(bindings) => {
            declaring_carries_on(origin, b, bindings@, bindings@.len());
        },
        _ => {},
    }
}

proof fn declaring_carries_on<'a>(
    origin: BodyView<'a>,
    b: BodyView<'a>,
    bindings: Seq<Binding>,
    count: nat,
)
    requires
        carries_on(origin, b),
    ensures
        carries_on(origin, b.declare_bindings(bindings, count)),
    decreases bindings, count,
{
    if count > 0 && count <= bindings.len() {
        declaring_carries_on(origin, b, bindings, (count - 1) as nat);
        declare_binding_carries_on(
            origin,
            b.declare_bindings(bindings, (count - 1) as nat),
            bindings[count - 1],
        );
    }
}

/// Whether what is nested inside something carries on from it.
#[verifier::opaque]
pub open spec fn steady(deeper: Deeper) -> bool {
    &&& forall|origin: BodyView, b: BodyView, expr: Expr, wanted: Option<TyView>|
        carries_on(origin, b) ==> #[trigger] carries_on(origin, (deeper.expr)(b, expr, wanted).0)
    &&& forall|origin: BodyView, b: BodyView, block: Block|
        carries_on(origin, b) ==> #[trigger] carries_on(origin, (deeper.block)(b, block))
    &&& forall|origin: BodyView, b: BodyView, stmts: Seq<Stmt>, span: Span|
        carries_on(origin, b) ==> #[trigger] carries_on(origin, (deeper.stmts)(b, stmts, span))
    &&& forall|
        origin: BodyView,
        b: BodyView,
        subject: Value,
        pattern: Pattern,
        fail: BlockId,
    |
        carries_on(origin, b) ==> #[trigger] carries_on(
            origin,
            (deeper.test)(b, subject, pattern, fail),
        )
    &&& forall|origin: BodyView, b: BodyView, binding: Binding, value: Value, span: Span|
        carries_on(origin, b) ==> #[trigger] carries_on(
            origin,
            (deeper.bind)(b, binding, value, span),
        )
}

pub(crate) broadcast proof fn expr_carries_on<'a>(
    origin: BodyView<'a>,
    b: BodyView<'a>,
    expr: Expr,
    wanted: Option<TyView>,
    deeper: Deeper<'a>,
)
    requires
        carries_on(origin, b),
        steady(deeper),
    ensures
        #[trigger] carries_on(origin, b.expr(expr, wanted, deeper).0),
{
    reveal(steady);
}

pub(crate) broadcast proof fn block_carries_on<'a>(
    origin: BodyView<'a>,
    b: BodyView<'a>,
    block: Block,
    deeper: Deeper<'a>,
)
    requires
        carries_on(origin, b),
        steady(deeper),
    ensures
        #[trigger] carries_on(origin, b.block(block, deeper)),
{
    reveal(steady);
}

pub(crate) broadcast proof fn stmts_carries_on<'a>(
    origin: BodyView<'a>,
    b: BodyView<'a>,
    stmts: Seq<Stmt>,
    span: Span,
    deeper: Deeper<'a>,
)
    requires
        carries_on(origin, b),
        steady(deeper),
    ensures
        #[trigger] carries_on(origin, b.stmts(stmts, span, deeper)),
{
    reveal(steady);
}

pub(crate) broadcast proof fn test_carries_on<'a>(
    origin: BodyView<'a>,
    b: BodyView<'a>,
    subject: Value,
    pattern: Pattern,
    fail: BlockId,
    deeper: Deeper<'a>,
)
    requires
        carries_on(origin, b),
        steady(deeper),
    ensures
        #[trigger] carries_on(origin, b.test(subject, pattern, fail, deeper)),
{
    reveal(steady);
}

pub(crate) broadcast proof fn bind_value_carries_on<'a>(
    origin: BodyView<'a>,
    b: BodyView<'a>,
    binding: Binding,
    value: Value,
    span: Span,
    deeper: Deeper<'a>,
)
    requires
        carries_on(origin, b),
        steady(deeper),
    ensures
        #[trigger] carries_on(origin, b.bind_value(binding, value, span, deeper)),
{
    reveal(steady);
}

pub(crate) broadcast proof fn missing_carries_on<'a>(
    origin: BodyView<'a>,
    b: BodyView<'a>,
    span: Span,
    what: Seq<char>,
)
    requires
        carries_on(origin, b),
    ensures
        #[trigger] carries_on(origin, b.missing(span, what).0),
{
    broadcast use {gap_carries_on, emit_carries_on};

    reveal(BodyView::missing);
}

pub(crate) broadcast proof fn unit_carries_on<'a>(
    origin: BodyView<'a>,
    b: BodyView<'a>,
    span: Span,
)
    requires
        carries_on(origin, b),
    ensures
        #[trigger] carries_on(origin, b.unit(span).0),
{
    broadcast use emit_carries_on;

    reveal(BodyView::unit);
}

pub(crate) broadcast proof fn read_var_carries_on<'a>(
    origin: BodyView<'a>,
    b: BodyView<'a>,
    var: u32,
    span: Span,
)
    requires
        carries_on(origin, b),
    ensures
        #[trigger] carries_on(origin, b.read_var(var, span).0),
{
    broadcast use emit_carries_on;

    reveal(BodyView::read_var);
}

pub(crate) broadcast proof fn write_var_carries_on<'a>(
    origin: BodyView<'a>,
    b: BodyView<'a>,
    var: u32,
    value: Value,
    span: Span,
)
    requires
        carries_on(origin, b),
    ensures
        #[trigger] carries_on(origin, b.write_var(var, value, span)),
{
    broadcast use {set_def_carries_on, emit_void_carries_on};

    reveal(BodyView::write_var);
}

pub(crate) broadcast proof fn bind_name_carries_on<'a>(
    origin: BodyView<'a>,
    b: BodyView<'a>,
    name: Seq<char>,
    value: Value,
    span: Span,
)
    requires
        carries_on(origin, b),
    ensures
        #[trigger] carries_on(origin, b.bind_name(name, value, span)),
{
    broadcast use {
        declare_carries_on, set_def_carries_on, add_slot_carries_on, emit_void_carries_on,
    };

    reveal(BodyView::bind_name);
}

pub(crate) broadcast proof fn settled_carries_on<'a>(
    origin: BodyView<'a>,
    b: BodyView<'a>,
    value: Value,
    span: Span,
)
    requires
        carries_on(origin, b),
    ensures
        #[trigger] carries_on(origin, b.settled(value, span).0),
{
    broadcast use emit_carries_on;

    reveal(BodyView::settled);
}

pub(crate) broadcast proof fn operand_type_carries_on<'a>(
    origin: BodyView<'a>,
    b: BodyView<'a>,
    left: Expr,
    right: Expr,
)
    requires
        carries_on(origin, b),
    ensures
        #[trigger] carries_on(origin, b.operand_type(left, right).0),
{
    broadcast use recorded_carries_on;

    reveal(BodyView::operand_type);
}

pub(crate) broadcast proof fn numeric_carries_on<'a>(
    origin: BodyView<'a>,
    b: BodyView<'a>,
    wanted: Option<TyView>,
    span: Span,
)
    requires
        carries_on(origin, b),
    ensures
        #[trigger] carries_on(origin, b.numeric(wanted, span).0),
{
    broadcast use recorded_carries_on;

    reveal(BodyView::numeric);
}

pub(crate) broadcast proof fn settled_type_carries_on<'a>(
    origin: BodyView<'a>,
    b: BodyView<'a>,
    wanted: Option<TyView>,
    span: Span,
)
    requires
        carries_on(origin, b),
    ensures
        #[trigger] carries_on(origin, b.settled_type(wanted, span).0),
{
    broadcast use recorded_carries_on;

    reveal(BodyView::settled_type);
}

pub(crate) broadcast proof fn returned_carries_on<'a>(
    origin: BodyView<'a>,
    b: BodyView<'a>,
    value: Value,
    span: Span,
)
    requires
        carries_on(origin, b),
    ensures
        #[trigger] carries_on(origin, b.returned(value, span).0),
{
    broadcast use emit_carries_on;

    reveal(BodyView::returned);
}

pub(crate) broadcast proof fn coerce_carries_on<'a>(
    origin: BodyView<'a>,
    b: BodyView<'a>,
    value: Value,
    wanted: TyView,
    span: Span,
)
    requires
        carries_on(origin, b),
    ensures
        #[trigger] carries_on(origin, b.coerce(value, wanted, span).0),
{
    broadcast use emit_carries_on;

    reveal(BodyView::coerce);
}

pub(crate) broadcast proof fn tag_test_carries_on<'a>(
    origin: BodyView<'a>,
    b: BodyView<'a>,
    subject: Value,
    tag: u32,
    span: Span,
)
    requires
        carries_on(origin, b),
    ensures
        #[trigger] carries_on(origin, b.tag_test(subject, tag, span).0),
{
    broadcast use emit_carries_on;

    reveal(BodyView::tag_test);
}

pub(crate) broadcast proof fn branch_carries_on<'a>(
    origin: BodyView<'a>,
    b: BodyView<'a>,
    condition: Value,
    then: BlockId,
    otherwise: BlockId,
)
    requires
        carries_on(origin, b),
    ensures
        #[trigger] carries_on(origin, b.branch(condition, then, otherwise)),
{
    broadcast use terminate_carries_on;

    reveal(BodyView::branch);
}

pub(crate) broadcast proof fn jump_with_carries_on<'a>(
    origin: BodyView<'a>,
    b: BodyView<'a>,
    block: BlockId,
    value: Value,
)
    requires
        carries_on(origin, b),
    ensures
        #[trigger] carries_on(origin, b.jump_with(block, value)),
{
    broadcast use terminate_carries_on;

    reveal(BodyView::jump_with);
}

pub(crate) broadcast proof fn check_carries_on<'a>(
    origin: BodyView<'a>,
    b: BodyView<'a>,
    test: Value,
    fail: BlockId,
    span: Span,
)
    requires
        carries_on(origin, b),
    ensures
        #[trigger] carries_on(origin, b.check(test, fail, span)),
{
    broadcast use {add_block_carries_on, branch_carries_on, switch_to_carries_on};

    reveal(BodyView::check);
}

pub(crate) broadcast proof fn variant_with_carries_on<'a>(
    origin: BodyView<'a>,
    b: BodyView<'a>,
    ty: TyView,
    variant: u32,
    value: Value,
    span: Span,
)
    requires
        carries_on(origin, b),
    ensures
        #[trigger] carries_on(origin, b.variant_with(ty, variant, value, span).0),
{
    broadcast use emit_carries_on;

    reveal(BodyView::variant_with);
}

pub(crate) broadcast proof fn completed_result_carries_on<'a>(
    origin: BodyView<'a>,
    b: BodyView<'a>,
    value: Value,
    result: TyView,
    span: Span,
)
    requires
        carries_on(origin, b),
    ensures
        #[trigger] carries_on(origin, b.completed_result(value, result, span).0),
{
    broadcast use variant_with_carries_on;

    reveal(BodyView::completed_result);
}

pub(crate) broadcast proof fn completed_task_carries_on<'a>(
    origin: BodyView<'a>,
    b: BodyView<'a>,
    value: Value,
    task: TyView,
    span: Span,
)
    requires
        carries_on(origin, b),
    ensures
        #[trigger] carries_on(origin, b.completed_task(value, task, span).0),
{
    broadcast use emit_carries_on;

    reveal(BodyView::completed_task);
}

pub(crate) broadcast proof fn narrowed_carries_on<'a>(
    origin: BodyView<'a>,
    b: BodyView<'a>,
    declared: Option<TyView>,
    result: TyView,
    read: InstKindView,
    span: Span,
)
    requires
        carries_on(origin, b),
    ensures
        #[trigger] carries_on(origin, b.narrowed(declared, result, read, span).0),
{
    broadcast use emit_carries_on;

    reveal(BodyView::narrowed);
}

pub(crate) broadcast proof fn display_carries_on<'a>(
    origin: BodyView<'a>,
    b: BodyView<'a>,
    value: Value,
    span: Span,
)
    requires
        carries_on(origin, b),
    ensures
        #[trigger] carries_on(origin, b.display(value, span).0),
{
    broadcast use {
        emit_carries_on, add_block_carries_on, branch_carries_on, switch_to_carries_on,
        jump_with_carries_on, add_block_param_carries_on, missing_carries_on,
    };

    reveal(BodyView::display);
}

pub(crate) broadcast proof fn add_params_carries_on<'a>(
    origin: BodyView<'a>,
    b: BodyView<'a>,
    block: BlockId,
    carried: Seq<u32>,
    span: Span,
    count: nat,
)
    requires
        carries_on(origin, b),
    ensures
        #[trigger] carries_on(origin, b.add_params(block, carried, span, count)),
    decreases count,
{
    broadcast use add_block_param_carries_on;

    reveal(BodyView::add_params);
    if count > 0 {
        add_params_carries_on(origin, b, block, carried, span, (count - 1) as nat);
    }
}

pub(crate) broadcast proof fn set_defs_carries_on<'a>(
    origin: BodyView<'a>,
    b: BodyView<'a>,
    carried: Seq<u32>,
    values: Seq<Value>,
    count: nat,
)
    requires
        carries_on(origin, b),
    ensures
        #[trigger] carries_on(origin, b.set_defs(carried, values, count)),
    decreases count,
{
    broadcast use set_def_carries_on;

    reveal(BodyView::set_defs);
    if count > 0 {
        set_defs_carries_on(origin, b, carried, values, (count - 1) as nat);
    }
}

pub(crate) broadcast proof fn bind_params_carries_on<'a>(
    origin: BodyView<'a>,
    b: BodyView<'a>,
    block: BlockId,
    carried: Seq<u32>,
)
    requires
        carries_on(origin, b),
    ensures
        #[trigger] carries_on(origin, b.bind_params(block, carried)),
{
    broadcast use set_defs_carries_on;

    reveal(BodyView::bind_params);
}

pub(crate) broadcast proof fn jump_to_carries_on<'a>(
    origin: BodyView<'a>,
    b: BodyView<'a>,
    block: BlockId,
    carried: Seq<u32>,
)
    requires
        carries_on(origin, b),
    ensures
        #[trigger] carries_on(origin, b.jump_to(block, carried)),
{
    broadcast use terminate_carries_on;

    reveal(BodyView::jump_to);
}

pub(crate) broadcast proof fn error_test_carries_on<'a>(
    origin: BodyView<'a>,
    b: BodyView<'a>,
    result: Value,
    failed: BlockId,
    succeeded: BlockId,
    span: Span,
)
    requires
        carries_on(origin, b),
    ensures
        #[trigger] carries_on(origin, b.error_test(result, failed, succeeded, span)),
{
    broadcast use {tag_test_carries_on, branch_carries_on};

    reveal(BodyView::error_test);
}

pub(crate) broadcast proof fn payload_carries_on<'a>(
    origin: BodyView<'a>,
    b: BodyView<'a>,
    value: Value,
    variant: u32,
    ty: TyView,
    span: Span,
)
    requires
        carries_on(origin, b),
    ensures
        #[trigger] carries_on(origin, b.payload(value, variant, ty, span).0),
{
    broadcast use emit_carries_on;

    reveal(BodyView::payload);
}

pub(crate) broadcast proof fn close_carries_on<'a>(
    origin: BodyView<'a>,
    b: BodyView<'a>,
    deeper: Deeper<'a>,
)
    requires
        carries_on(origin, b),
        steady(deeper),
    ensures
        #[trigger] carries_on(origin, b.close(deeper)),
{
    broadcast use {unwind_carries_on, drop_scope_carries_on};

    reveal(BodyView::close);
}

pub(crate) broadcast proof fn constant_carries_on<'a>(
    origin: BodyView<'a>,
    b: BodyView<'a>,
    name: Seq<char>,
    wanted: Option<TyView>,
    span: Span,
    deeper: Deeper<'a>,
)
    requires
        carries_on(origin, b),
        steady(deeper),
    ensures
        #[trigger] carries_on(origin, b.constant(name, wanted, span, deeper).0),
{
    broadcast use {
        missing_carries_on, declared_type_carries_on, begin_constant_carries_on, expr_carries_on,
        end_constant_carries_on,
    };

    reveal(BodyView::constant);
}

pub(crate) broadcast proof fn stored_carries_on<'a>(
    origin: BodyView<'a>,
    b: BodyView<'a>,
    expr: Expr,
    wanted: Option<TyView>,
    deeper: Deeper<'a>,
)
    requires
        carries_on(origin, b),
        steady(deeper),
    ensures
        #[trigger] carries_on(origin, b.stored(expr, wanted, deeper).0),
{
    broadcast use {expr_carries_on, emit_carries_on};

    reveal(BodyView::stored);
}

pub(crate) broadcast proof fn raise_carries_on<'a>(
    origin: BodyView<'a>,
    b: BodyView<'a>,
    thrown: Value,
    span: Span,
    deeper: Deeper<'a>,
)
    requires
        carries_on(origin, b),
        steady(deeper),
    ensures
        #[trigger] carries_on(origin, b.raise(thrown, span, deeper)),
{
    broadcast use {
        unwind_from_carries_on, terminate_carries_on, gap_carries_on, variant_with_carries_on,
    };

    reveal(BodyView::raise);
}

pub(crate) broadcast proof fn leave_carries_on<'a>(
    origin: BodyView<'a>,
    b: BodyView<'a>,
    label: Option<Seq<char>>,
    continues: bool,
    span: Span,
    deeper: Deeper<'a>,
)
    requires
        carries_on(origin, b),
        steady(deeper),
    ensures
        #[trigger] carries_on(origin, b.leave(label, continues, span, deeper)),
{
    broadcast use {gap_carries_on, unwind_from_carries_on, jump_to_carries_on};

    reveal(BodyView::leave);
}

pub(crate) broadcast proof fn ret_carries_on<'a>(
    origin: BodyView<'a>,
    b: BodyView<'a>,
    value: Option<&'a Expr>,
    span: Span,
    deeper: Deeper<'a>,
)
    requires
        carries_on(origin, b),
        steady(deeper),
    ensures
        #[trigger] carries_on(origin, b.ret(value, span, deeper)),
{
    broadcast use {
        stored_carries_on, unit_carries_on, unwind_from_carries_on, returned_carries_on,
        terminate_carries_on,
    };

    reveal(BodyView::ret);
}

pub(crate) broadcast proof fn caught_or_raised_carries_on<'a>(
    origin: BodyView<'a>,
    b: BodyView<'a>,
    outcome: Value,
    result: TyView,
    span: Span,
    deeper: Deeper<'a>,
)
    requires
        carries_on(origin, b),
        steady(deeper),
    ensures
        #[trigger] carries_on(origin, b.caught_or_raised(outcome, result, span, deeper).0),
{
    broadcast use {
        tag_test_carries_on, add_block_carries_on, branch_carries_on, switch_to_carries_on,
        payload_carries_on, raise_carries_on,
    };

    reveal(BodyView::caught_or_raised);
}

proof fn cleaning_carries_on<'a>(
    origin: BodyView<'a>,
    b: BodyView<'a>,
    held: Seq<Cleanup<'a>>,
    deeper: Deeper<'a>,
    count: nat,
)
    requires
        carries_on(origin, b),
        steady(deeper),
    ensures
        carries_on(origin, b.clean(held, deeper, count)),
    decreases count,
{
    broadcast use gap_carries_on;

    reveal(BodyView::clean);
    if count > 0 {
        match held[count - 1] {
            Cleanup::Deferred(call) => {
                expr_carries_on(origin, b, *call, None, deeper);
                let (after, _) = b.expr(*call, None, deeper);
                cleaning_carries_on(origin, after, held, deeper, (count - 1) as nat);
            },
            Cleanup::Finally(block) => {
                block_carries_on(origin, b, *block, deeper);
                let after = b.block(*block, deeper);
                cleaning_carries_on(origin, after, held, deeper, (count - 1) as nat);
            },
        }
    }
}

pub(crate) broadcast proof fn unwind_carries_on<'a>(
    origin: BodyView<'a>,
    b: BodyView<'a>,
    frame: nat,
    deeper: Deeper<'a>,
)
    requires
        carries_on(origin, b),
        steady(deeper),
    ensures
        #[trigger] carries_on(origin, b.unwind(frame, deeper)),
{
    reveal(BodyView::unwind);
    let held = b.cleanups(frame);
    cleaning_carries_on(origin, b, held, deeper, held.len());
}

proof fn unwinding_carries_on<'a>(
    origin: BodyView<'a>,
    b: BodyView<'a>,
    depth: nat,
    top: nat,
    deeper: Deeper<'a>,
)
    requires
        carries_on(origin, b),
        steady(deeper),
    ensures
        carries_on(origin, b.unwind_between(depth, top, deeper)),
    decreases top,
{
    reveal(BodyView::unwind_between);
    if top > depth {
        unwind_carries_on(origin, b, (top - 1) as nat, deeper);
        let after = b.unwind((top - 1) as nat, deeper);
        unwinding_carries_on(origin, after, depth, (top - 1) as nat, deeper);
    }
}

pub(crate) broadcast proof fn unwind_from_carries_on<'a>(
    origin: BodyView<'a>,
    b: BodyView<'a>,
    depth: nat,
    deeper: Deeper<'a>,
)
    requires
        carries_on(origin, b),
        steady(deeper),
    ensures
        #[trigger] carries_on(origin, b.unwind_from(depth, deeper)),
{
    reveal(BodyView::unwind_from);
    unwinding_carries_on(origin, b, depth, b.depth(), deeper);
}

pub(crate) broadcast proof fn record_carries_on<'a>(
    origin: BodyView<'a>,
    b: BodyView<'a>,
    path: Seq<String>,
    fields: Seq<FieldInit>,
    wanted: Option<TyView>,
    span: Span,
    deeper: Deeper<'a>,
)
    requires
        carries_on(origin, b),
        steady(deeper),
    ensures
        #[trigger] carries_on(origin, b.record(path, fields, wanted, span, deeper).0),
{
    broadcast use {
        recorded_carries_on, missing_carries_on, construct_record_carries_on,
        field_values_carries_on, default_fields_carries_on, emit_carries_on,
    };

    reveal(BodyView::record);
}

pub(crate) broadcast proof fn field_values_carries_on<'a>(
    origin: BodyView<'a>,
    b: BodyView<'a>,
    fields: Seq<FieldInit>,
    slots: Seq<Option<usize>>,
    declared: Seq<(Seq<char>, TyView)>,
    deeper: Deeper<'a>,
    count: nat,
)
    requires
        carries_on(origin, b),
        steady(deeper),
    ensures
        #[trigger] carries_on(origin, b.field_values(fields, slots, declared, deeper, count).0),
    decreases count,
{
    broadcast use stored_carries_on;

    reveal(BodyView::field_values);
    if count > 0 {
        field_values_carries_on(origin, b, fields, slots, declared, deeper, (count - 1) as nat);
    }
}

pub(crate) broadcast proof fn default_fields_carries_on<'a>(
    origin: BodyView<'a>,
    b: BodyView<'a>,
    ty: TyView,
    declared: Seq<(Seq<char>, TyView)>,
    filled: Seq<Option<Value>>,
    limit: nat,
    span: Span,
    deeper: Deeper<'a>,
    count: nat,
)
    requires
        carries_on(origin, b),
        steady(deeper),
    ensures
        #[trigger] carries_on(
            origin,
            b.default_fields(ty, declared, filled, limit, span, deeper, count).0,
        ),
    decreases count,
{
    broadcast use {stored_carries_on, emit_carries_on};

    reveal(BodyView::default_fields);
    if count > 0 {
        default_fields_carries_on(
            origin,
            b,
            ty,
            declared,
            filled,
            limit,
            span,
            deeper,
            (count - 1) as nat,
        );
    }
}

pub(crate) broadcast proof fn construct_record_carries_on<'a>(
    origin: BodyView<'a>,
    b: BodyView<'a>,
    ty: TyView,
    variant: u32,
    fields: Seq<FieldInit>,
    span: Span,
    deeper: Deeper<'a>,
)
    requires
        carries_on(origin, b),
        steady(deeper),
    ensures
        #[trigger] carries_on(origin, b.construct_record(ty, variant, fields, span, deeper).0),
{
    broadcast use {missing_carries_on, named_values_carries_on, emit_carries_on};

    reveal(BodyView::construct_record);
}

pub(crate) broadcast proof fn named_values_carries_on<'a>(
    origin: BodyView<'a>,
    b: BodyView<'a>,
    fields: Seq<FieldInit>,
    slots: Seq<Option<usize>>,
    carried: Seq<TyView>,
    deeper: Deeper<'a>,
    count: nat,
)
    requires
        carries_on(origin, b),
        steady(deeper),
    ensures
        #[trigger] carries_on(origin, b.named_values(fields, slots, carried, deeper, count).0),
    decreases count,
{
    broadcast use expr_carries_on;

    reveal(BodyView::named_values);
    if count > 0 {
        named_values_carries_on(origin, b, fields, slots, carried, deeper, (count - 1) as nat);
    }
}

pub(crate) broadcast proof fn construct_carries_on<'a>(
    origin: BodyView<'a>,
    b: BodyView<'a>,
    ty: TyView,
    variant: u32,
    args: Seq<Given<'a>>,
    span: Span,
    deeper: Deeper<'a>,
)
    requires
        carries_on(origin, b),
        steady(deeper),
    ensures
        #[trigger] carries_on(origin, b.construct(ty, variant, args, span, deeper).0),
{
    broadcast use {missing_carries_on, pass_each_carries_on, emit_carries_on};

    reveal(BodyView::construct);
}

pub(crate) broadcast proof fn field_carries_on<'a>(
    origin: BodyView<'a>,
    b: BodyView<'a>,
    receiver: Expr,
    name: Seq<char>,
    optional: bool,
    span: Span,
    deeper: Deeper<'a>,
)
    requires
        carries_on(origin, b),
        steady(deeper),
    ensures
        #[trigger] carries_on(origin, b.field(receiver, name, optional, span, deeper).0),
{
    broadcast use {
        empty_variant_carries_on, emit_carries_on, expr_carries_on, recorded_carries_on,
        optional_field_carries_on, plain_field_carries_on,
    };

    reveal(BodyView::field);
}

pub(crate) broadcast proof fn empty_variant_carries_on<'a>(
    origin: BodyView<'a>,
    b: BodyView<'a>,
    receiver: Expr,
    name: Seq<char>,
    span: Span,
)
    requires
        carries_on(origin, b),
    ensures
        #[trigger] carries_on(origin, b.empty_variant(receiver, name, span).0),
{
    broadcast use recorded_carries_on;

    reveal(BodyView::empty_variant);
}

pub(crate) broadcast proof fn plain_field_carries_on<'a>(
    origin: BodyView<'a>,
    b: BodyView<'a>,
    object: Value,
    name: Seq<char>,
    result: TyView,
    span: Span,
)
    requires
        carries_on(origin, b),
    ensures
        #[trigger] carries_on(origin, b.plain_field(object, name, result, span).0),
{
    broadcast use {settled_carries_on, emit_carries_on, missing_carries_on, narrowed_carries_on};

    reveal(BodyView::plain_field);
}

pub(crate) broadcast proof fn optional_field_carries_on<'a>(
    origin: BodyView<'a>,
    b: BodyView<'a>,
    object: Value,
    name: Seq<char>,
    result: TyView,
    span: Span,
)
    requires
        carries_on(origin, b),
    ensures
        #[trigger] carries_on(origin, b.optional_field(object, name, result, span).0),
{
    broadcast use {
        missing_carries_on, add_block_carries_on, emit_carries_on, branch_carries_on,
        switch_to_carries_on, coerce_carries_on, jump_with_carries_on, add_block_param_carries_on,
    };

    reveal(BodyView::optional_field);
}

pub(crate) broadcast proof fn list_carries_on<'a>(
    origin: BodyView<'a>,
    b: BodyView<'a>,
    values: Seq<Expr>,
    wanted: Option<TyView>,
    span: Span,
    deeper: Deeper<'a>,
)
    requires
        carries_on(origin, b),
        steady(deeper),
    ensures
        #[trigger] carries_on(origin, b.list(values, wanted, span, deeper).0),
{
    broadcast use {
        settled_type_carries_on, missing_carries_on, each_at_carries_on, emit_carries_on,
    };

    reveal(BodyView::list);
}

pub(crate) broadcast proof fn each_at_carries_on<'a>(
    origin: BodyView<'a>,
    b: BodyView<'a>,
    list: Seq<Expr>,
    element: TyView,
    deeper: Deeper<'a>,
    count: nat,
)
    requires
        carries_on(origin, b),
        steady(deeper),
    ensures
        #[trigger] carries_on(origin, b.each_at(list, element, deeper, count).0),
    decreases count,
{
    broadcast use expr_carries_on;

    reveal(BodyView::each_at);
    if count > 0 {
        each_at_carries_on(origin, b, list, element, deeper, (count - 1) as nat);
    }
}

pub(crate) broadcast proof fn map_carries_on<'a>(
    origin: BodyView<'a>,
    b: BodyView<'a>,
    entries: Seq<MapEntry>,
    wanted: Option<TyView>,
    span: Span,
    deeper: Deeper<'a>,
)
    requires
        carries_on(origin, b),
        steady(deeper),
    ensures
        #[trigger] carries_on(origin, b.map(entries, wanted, span, deeper).0),
{
    broadcast use {
        settled_type_carries_on, missing_carries_on, map_entries_carries_on, emit_carries_on,
    };

    reveal(BodyView::map);
}

pub(crate) broadcast proof fn map_entries_carries_on<'a>(
    origin: BodyView<'a>,
    b: BodyView<'a>,
    entries: Seq<MapEntry>,
    key: TyView,
    value: TyView,
    span: Span,
    deeper: Deeper<'a>,
    count: nat,
)
    requires
        carries_on(origin, b),
        steady(deeper),
    ensures
        #[trigger] carries_on(origin, b.map_entries(entries, key, value, span, deeper, count).0),
    decreases count,
{
    broadcast use {emit_carries_on, expr_carries_on};

    reveal(BodyView::map_entries);
    if count > 0 {
        map_entries_carries_on(origin, b, entries, key, value, span, deeper, (count - 1) as nat);
    }
}

pub(crate) broadcast proof fn set_carries_on<'a>(
    origin: BodyView<'a>,
    b: BodyView<'a>,
    values: Seq<Expr>,
    wanted: Option<TyView>,
    span: Span,
    deeper: Deeper<'a>,
)
    requires
        carries_on(origin, b),
        steady(deeper),
    ensures
        #[trigger] carries_on(origin, b.set(values, wanted, span, deeper).0),
{
    broadcast use {
        settled_type_carries_on, missing_carries_on, each_at_carries_on, emit_carries_on,
    };

    reveal(BodyView::set);
}

pub(crate) broadcast proof fn index_carries_on<'a>(
    origin: BodyView<'a>,
    b: BodyView<'a>,
    receiver: Expr,
    index: Expr,
    optional: bool,
    span: Span,
    deeper: Deeper<'a>,
)
    requires
        carries_on(origin, b),
        steady(deeper),
    ensures
        #[trigger] carries_on(origin, b.index(receiver, index, optional, span, deeper).0),
{
    broadcast use {
        missing_carries_on, call_carries_on, expr_carries_on, settled_carries_on,
        recorded_carries_on, emit_carries_on, narrowed_carries_on,
    };

    reveal(BodyView::index);
}

pub(crate) broadcast proof fn match_stmt_carries_on<'a>(
    origin: BodyView<'a>,
    b: BodyView<'a>,
    scrutinee: Expr,
    arms: Seq<MatchArm>,
    span: Span,
    deeper: Deeper<'a>,
)
    requires
        carries_on(origin, b),
        steady(deeper),
    ensures
        #[trigger] carries_on(origin, b.match_stmt(scrutinee, arms, span, deeper)),
{
    broadcast use {
        expr_carries_on, add_block_carries_on, match_arms_carries_on, terminate_carries_on,
        join_carries_on,
    };

    reveal(BodyView::match_stmt);
}

pub(crate) broadcast proof fn match_arms_carries_on<'a>(
    origin: BodyView<'a>,
    b: BodyView<'a>,
    subject: Value,
    arms: Seq<MatchArm>,
    entering: Map<u32, Value>,
    span: Span,
    deeper: Deeper<'a>,
    count: nat,
)
    requires
        carries_on(origin, b),
        steady(deeper),
    ensures
        #[trigger] carries_on(origin, b.match_arms(subject, arms, entering, span, deeper, count).0),
    decreases count,
{
    broadcast use {
        add_block_carries_on, open_carries_on, arm_carries_on, block_carries_on, expr_carries_on,
        close_carries_on, switch_to_carries_on, restore_carries_on,
    };

    reveal(BodyView::match_arms);
    if count > 0 {
        match_arms_carries_on(origin, b, subject, arms, entering, span, deeper, (count - 1) as nat);
    }
}

pub(crate) broadcast proof fn arm_carries_on<'a>(
    origin: BodyView<'a>,
    b: BodyView<'a>,
    subject: Value,
    arm: MatchArm,
    next: BlockId,
    span: Span,
    deeper: Deeper<'a>,
)
    requires
        carries_on(origin, b),
        steady(deeper),
    ensures
        #[trigger] carries_on(origin, b.arm(subject, arm, next, span, deeper)),
{
    broadcast use {
        test_carries_on, add_block_carries_on, expr_carries_on, branch_carries_on,
        switch_to_carries_on,
    };

    reveal(BodyView::arm);
}

pub(crate) broadcast proof fn test_within_carries_on<'a>(
    origin: BodyView<'a>,
    b: BodyView<'a>,
    subject: Value,
    pattern: Pattern,
    fail: BlockId,
    deeper: Deeper<'a>,
)
    requires
        carries_on(origin, b),
        steady(deeper),
    ensures
        #[trigger] carries_on(origin, b.test_within(subject, pattern, fail, deeper)),
{
    broadcast use {
        declare_carries_on, set_def_carries_on, alternatives_carries_on, check_carries_on,
        test_path_carries_on, gap_carries_on, test_members_carries_on, decides_carries_on,
    };

    reveal(BodyView::test_within);
}

pub(crate) broadcast proof fn test_path_carries_on<'a>(
    origin: BodyView<'a>,
    b: BodyView<'a>,
    subject: Value,
    segments: Seq<String>,
    payload: Option<Payload>,
    fail: BlockId,
    span: Span,
    deeper: Deeper<'a>,
)
    requires
        carries_on(origin, b),
        steady(deeper),
    ensures
        #[trigger] carries_on(origin, b.test_path(subject, segments, payload, fail, span, deeper)),
{
    broadcast use {
        gap_carries_on, tag_test_carries_on, check_carries_on, bind_payload_carries_on,
        bind_fields_carries_on,
    };

    reveal(BodyView::test_path);
}

pub(crate) broadcast proof fn alternatives_carries_on<'a>(
    origin: BodyView<'a>,
    b: BodyView<'a>,
    subject: Value,
    list: Seq<Pattern>,
    span: Span,
    deeper: Deeper<'a>,
    count: nat,
)
    requires
        carries_on(origin, b),
        steady(deeper),
    ensures
        #[trigger] carries_on(origin, b.alternatives(subject, list, span, deeper, count).0),
    decreases count,
{
    broadcast use {decides_carries_on, emit_carries_on, gap_carries_on};

    reveal(BodyView::alternatives);
    if count > 0 {
        alternatives_carries_on(origin, b, subject, list, span, deeper, (count - 1) as nat);
    }
}

pub(crate) broadcast proof fn test_members_carries_on<'a>(
    origin: BodyView<'a>,
    b: BodyView<'a>,
    subject: Value,
    members: Seq<Pattern>,
    types: Seq<TyView>,
    fail: BlockId,
    span: Span,
    deeper: Deeper<'a>,
    count: nat,
)
    requires
        carries_on(origin, b),
        steady(deeper),
    ensures
        #[trigger] carries_on(
            origin,
            b.test_members(subject, members, types, fail, span, deeper, count),
        ),
    decreases count,
{
    broadcast use {emit_carries_on, test_carries_on};

    reveal(BodyView::test_members);
    if count > 0 {
        test_members_carries_on(
            origin,
            b,
            subject,
            members,
            types,
            fail,
            span,
            deeper,
            (count - 1) as nat,
        );
    }
}

pub(crate) broadcast proof fn decides_carries_on<'a>(
    origin: BodyView<'a>,
    b: BodyView<'a>,
    subject: Value,
    pattern: Pattern,
    deeper: Deeper<'a>,
)
    requires
        carries_on(origin, b),
        steady(deeper),
    ensures
        #[trigger] carries_on(origin, b.decides(subject, pattern, deeper).0),
{
    broadcast use {emit_carries_on, expr_carries_on, tag_test_carries_on};

    reveal(BodyView::decides);
}

pub(crate) broadcast proof fn bind_payload_carries_on<'a>(
    origin: BodyView<'a>,
    b: BodyView<'a>,
    subject: Value,
    variant: u32,
    payload: Option<Payload>,
    fail: BlockId,
    span: Span,
    deeper: Deeper<'a>,
)
    requires
        carries_on(origin, b),
        steady(deeper),
    ensures
        #[trigger] carries_on(
            origin,
            b.bind_payload(subject, variant, payload, fail, span, deeper),
        ),
{
    broadcast use {gap_carries_on, test_payload_carries_on, test_named_payload_carries_on};

    reveal(BodyView::bind_payload);
}

pub(crate) broadcast proof fn test_payload_carries_on<'a>(
    origin: BodyView<'a>,
    b: BodyView<'a>,
    subject: Value,
    variant: u32,
    patterns: Seq<Pattern>,
    carried: Seq<TyView>,
    fail: BlockId,
    span: Span,
    deeper: Deeper<'a>,
    count: nat,
)
    requires
        carries_on(origin, b),
        steady(deeper),
    ensures
        #[trigger] carries_on(
            origin,
            b.test_payload(subject, variant, patterns, carried, fail, span, deeper, count),
        ),
    decreases count,
{
    broadcast use {emit_carries_on, test_carries_on};

    reveal(BodyView::test_payload);
    if count > 0 {
        test_payload_carries_on(
            origin,
            b,
            subject,
            variant,
            patterns,
            carried,
            fail,
            span,
            deeper,
            (count - 1) as nat,
        );
    }
}

pub(crate) broadcast proof fn test_named_payload_carries_on<'a>(
    origin: BodyView<'a>,
    b: BodyView<'a>,
    subject: Value,
    variant: u32,
    fields: Seq<FieldPattern>,
    declared: Seq<Seq<char>>,
    carried: Seq<TyView>,
    fail: BlockId,
    deeper: Deeper<'a>,
    count: nat,
)
    requires
        carries_on(origin, b),
        steady(deeper),
    ensures
        #[trigger] carries_on(
            origin,
            b.test_named_payload(subject, variant, fields, declared, carried, fail, deeper, count),
        ),
    decreases count,
{
    broadcast use {emit_carries_on, bind_field_carries_on, gap_carries_on};

    reveal(BodyView::test_named_payload);
    if count > 0 {
        test_named_payload_carries_on(
            origin,
            b,
            subject,
            variant,
            fields,
            declared,
            carried,
            fail,
            deeper,
            (count - 1) as nat,
        );
    }
}

pub(crate) broadcast proof fn bind_fields_carries_on<'a>(
    origin: BodyView<'a>,
    b: BodyView<'a>,
    subject: Value,
    fields: Seq<FieldPattern>,
    fail: BlockId,
    span: Span,
    deeper: Deeper<'a>,
)
    requires
        carries_on(origin, b),
        steady(deeper),
    ensures
        #[trigger] carries_on(origin, b.bind_fields(subject, fields, fail, span, deeper)),
{
    broadcast use {gap_carries_on, test_fields_carries_on};

    reveal(BodyView::bind_fields);
}

pub(crate) broadcast proof fn test_fields_carries_on<'a>(
    origin: BodyView<'a>,
    b: BodyView<'a>,
    subject: Value,
    fields: Seq<FieldPattern>,
    declared: Seq<(Seq<char>, TyView)>,
    fail: BlockId,
    deeper: Deeper<'a>,
    count: nat,
)
    requires
        carries_on(origin, b),
        steady(deeper),
    ensures
        #[trigger] carries_on(
            origin,
            b.test_fields(subject, fields, declared, fail, deeper, count),
        ),
    decreases count,
{
    broadcast use {emit_carries_on, bind_field_carries_on, gap_carries_on};

    reveal(BodyView::test_fields);
    if count > 0 {
        test_fields_carries_on(
            origin,
            b,
            subject,
            fields,
            declared,
            fail,
            deeper,
            (count - 1) as nat,
        );
    }
}

pub(crate) broadcast proof fn bind_field_carries_on<'a>(
    origin: BodyView<'a>,
    b: BodyView<'a>,
    value: Value,
    written: FieldPattern,
    fail: BlockId,
    deeper: Deeper<'a>,
)
    requires
        carries_on(origin, b),
        steady(deeper),
    ensures
        #[trigger] carries_on(origin, b.bind_field(value, written, fail, deeper)),
{
    broadcast use {test_carries_on, declare_carries_on, set_def_carries_on};

    reveal(BodyView::bind_field);
}

pub(crate) broadcast proof fn bind_within_carries_on<'a>(
    origin: BodyView<'a>,
    b: BodyView<'a>,
    binding: Binding,
    value: Value,
    span: Span,
    deeper: Deeper<'a>,
)
    requires
        carries_on(origin, b),
        steady(deeper),
    ensures
        #[trigger] carries_on(origin, b.bind_within(binding, value, span, deeper)),
{
    broadcast use {
        bind_name_carries_on, bind_record_carries_on, gap_carries_on, declare_binding_carries_on,
        bind_members_carries_on,
    };

    reveal(BodyView::bind_within);
}

pub(crate) broadcast proof fn bind_record_carries_on<'a>(
    origin: BodyView<'a>,
    b: BodyView<'a>,
    value: Value,
    fields: Seq<FieldBinding>,
    declared: Seq<(Seq<char>, TyView)>,
    count: nat,
)
    requires
        carries_on(origin, b),
    ensures
        #[trigger] carries_on(origin, b.bind_record(value, fields, declared, count)),
    decreases count,
{
    broadcast use {emit_carries_on, declare_carries_on, set_def_carries_on, gap_carries_on};

    reveal(BodyView::bind_record);
    if count > 0 {
        bind_record_carries_on(origin, b, value, fields, declared, (count - 1) as nat);
    }
}

pub(crate) broadcast proof fn bind_members_carries_on<'a>(
    origin: BodyView<'a>,
    b: BodyView<'a>,
    value: Value,
    bindings: Seq<Binding>,
    members: Seq<TyView>,
    span: Span,
    deeper: Deeper<'a>,
    count: nat,
)
    requires
        carries_on(origin, b),
        steady(deeper),
    ensures
        #[trigger] carries_on(
            origin,
            b.bind_members(value, bindings, members, span, deeper, count),
        ),
    decreases count,
{
    broadcast use {emit_carries_on, bind_value_carries_on};

    reveal(BodyView::bind_members);
    if count > 0 {
        bind_members_carries_on(
            origin,
            b,
            value,
            bindings,
            members,
            span,
            deeper,
            (count - 1) as nat,
        );
    }
}

pub(crate) broadcast proof fn derive_carries_on<'a>(
    origin: BodyView<'a>,
    b: BodyView<'a>,
    member: Seq<char>,
    owner: TypeId,
    span: Span,
)
    requires
        carries_on(origin, b),
    ensures
        #[trigger] carries_on(origin, b.derive(member, owner, span).0),
{
    broadcast use {
        struct_eq_carries_on, struct_hash_carries_on, struct_display_carries_on,
        underivable_carries_on, enum_eq_carries_on, enum_hash_carries_on, enum_display_carries_on,
    };

    reveal(BodyView::derive);
}

pub(crate) broadcast proof fn underivable_carries_on<'a>(
    origin: BodyView<'a>,
    b: BodyView<'a>,
    member: Seq<char>,
    span: Span,
)
    requires
        carries_on(origin, b),
    ensures
        #[trigger] carries_on(origin, b.underivable(member, span).0),
{
    broadcast use gap_carries_on;

    reveal(BodyView::underivable);
}

pub(crate) broadcast proof fn answer_carries_on<'a>(
    origin: BodyView<'a>,
    b: BodyView<'a>,
    held: bool,
    span: Span,
)
    requires
        carries_on(origin, b),
    ensures
        #[trigger] carries_on(origin, b.answer(held, span)),
{
    broadcast use {emit_carries_on, terminate_carries_on};

    reveal(BodyView::answer);
}

pub(crate) broadcast proof fn struct_eq_carries_on<'a>(
    origin: BodyView<'a>,
    b: BodyView<'a>,
    fields: Seq<FieldView>,
    span: Span,
)
    requires
        carries_on(origin, b),
    ensures
        #[trigger] carries_on(origin, b.struct_eq(fields, span).0),
{
    broadcast use {
        refuse_carries_on, add_block_carries_on, eq_fields_carries_on, answer_carries_on,
        switch_to_carries_on,
    };

    reveal(BodyView::struct_eq);
}

pub(crate) broadcast proof fn refuse_carries_on<'a>(
    origin: BodyView<'a>,
    b: BodyView<'a>,
    span: Span,
    what: Seq<char>,
)
    requires
        carries_on(origin, b),
    ensures
        #[trigger] carries_on(origin, b.refuse(span, what).0),
{
    broadcast use gap_carries_on;

    reveal(BodyView::refuse);
}

pub(crate) broadcast proof fn eq_fields_carries_on<'a>(
    origin: BodyView<'a>,
    b: BodyView<'a>,
    left: Value,
    right: Value,
    variant: Option<u32>,
    fields: Seq<FieldView>,
    differs: BlockId,
    span: Span,
    count: nat,
)
    requires
        carries_on(origin, b),
    ensures
        #[trigger] carries_on(
            origin,
            b.eq_fields(left, right, variant, fields, differs, span, count),
        ),
    decreases count,
{
    broadcast use {
        emit_carries_on, same_carries_on, add_block_carries_on, branch_carries_on,
        switch_to_carries_on,
    };

    reveal(BodyView::eq_fields);
    if count > 0 {
        eq_fields_carries_on(
            origin,
            b,
            left,
            right,
            variant,
            fields,
            differs,
            span,
            (count - 1) as nat,
        );
    }
}

pub(crate) broadcast proof fn same_carries_on<'a>(
    origin: BodyView<'a>,
    b: BodyView<'a>,
    left: Value,
    right: Value,
    ty: TyView,
    span: Span,
)
    requires
        carries_on(origin, b),
    ensures
        #[trigger] carries_on(origin, b.same(left, right, ty, span).0),
{
    broadcast use emit_carries_on;

    reveal(BodyView::same);
}

#[verifier::rlimit(60)]
pub(crate) broadcast proof fn enum_eq_carries_on<'a>(
    origin: BodyView<'a>,
    b: BodyView<'a>,
    variants: Seq<VariantView>,
    span: Span,
)
    requires
        carries_on(origin, b),
    ensures
        #[trigger] carries_on(origin, b.enum_eq(variants, span).0),
{
    broadcast use {
        refuse_carries_on, emit_carries_on, add_block_carries_on, switch_to_carries_on,
        answer_carries_on, branch_carries_on, eq_variants_carries_on, choose_variant_carries_on,
    };

    reveal(BodyView::enum_eq);
}

pub(crate) broadcast proof fn eq_variants_carries_on<'a>(
    origin: BodyView<'a>,
    b: BodyView<'a>,
    left: Value,
    right: Value,
    variants: Seq<VariantView>,
    differs: BlockId,
    span: Span,
    count: nat,
)
    requires
        carries_on(origin, b),
    ensures
        #[trigger] carries_on(origin, b.eq_variants(left, right, variants, differs, span, count).0),
    decreases count,
{
    broadcast use {
        add_block_carries_on, switch_to_carries_on, eq_fields_carries_on, answer_carries_on,
    };

    reveal(BodyView::eq_variants);
    if count > 0 {
        eq_variants_carries_on(origin, b, left, right, variants, differs, span, (count - 1) as nat);
    }
}

pub(crate) broadcast proof fn choose_variant_carries_on<'a>(
    origin: BodyView<'a>,
    b: BodyView<'a>,
    tag: Value,
    blocks: Seq<BlockId>,
    from: BlockId,
    span: Span,
)
    requires
        carries_on(origin, b),
    ensures
        #[trigger] carries_on(origin, b.choose_variant(tag, blocks, from, span)),
{
    broadcast use {add_block_carries_on, switch_to_carries_on, terminate_carries_on};

    reveal(BodyView::choose_variant);
}

pub(crate) broadcast proof fn hash_start_carries_on<'a>(
    origin: BodyView<'a>,
    b: BodyView<'a>,
    span: Span,
)
    requires
        carries_on(origin, b),
    ensures
        #[trigger] carries_on(origin, b.hash_start(span).0),
{
    broadcast use emit_carries_on;

    reveal(BodyView::hash_start);
}

pub(crate) broadcast proof fn combine_carries_on<'a>(
    origin: BodyView<'a>,
    b: BodyView<'a>,
    state: Value,
    value: Value,
    span: Span,
)
    requires
        carries_on(origin, b),
    ensures
        #[trigger] carries_on(origin, b.combine(state, value, span).0),
{
    broadcast use emit_carries_on;

    reveal(BodyView::combine);
}

pub(crate) broadcast proof fn struct_hash_carries_on<'a>(
    origin: BodyView<'a>,
    b: BodyView<'a>,
    fields: Seq<FieldView>,
    span: Span,
)
    requires
        carries_on(origin, b),
    ensures
        #[trigger] carries_on(origin, b.struct_hash(fields, span).0),
{
    broadcast use {
        refuse_carries_on, hash_start_carries_on, hash_fields_carries_on, terminate_carries_on,
    };

    reveal(BodyView::struct_hash);
}

pub(crate) broadcast proof fn hash_fields_carries_on<'a>(
    origin: BodyView<'a>,
    b: BodyView<'a>,
    first: Value,
    value: Value,
    variant: Option<u32>,
    fields: Seq<FieldView>,
    span: Span,
    count: nat,
)
    requires
        carries_on(origin, b),
    ensures
        #[trigger] carries_on(origin, b.hash_fields(first, value, variant, fields, span, count).0),
    decreases count,
{
    broadcast use {emit_carries_on, hash_carries_on, combine_carries_on};

    reveal(BodyView::hash_fields);
    if count > 0 {
        hash_fields_carries_on(origin, b, first, value, variant, fields, span, (count - 1) as nat);
    }
}

pub(crate) broadcast proof fn hash_carries_on<'a>(
    origin: BodyView<'a>,
    b: BodyView<'a>,
    value: Value,
    ty: TyView,
    span: Span,
)
    requires
        carries_on(origin, b),
    ensures
        #[trigger] carries_on(origin, b.hash(value, ty, span).0),
{
    broadcast use emit_carries_on;

    reveal(BodyView::hash);
}

pub(crate) broadcast proof fn enum_hash_carries_on<'a>(
    origin: BodyView<'a>,
    b: BodyView<'a>,
    variants: Seq<VariantView>,
    span: Span,
)
    requires
        carries_on(origin, b),
    ensures
        #[trigger] carries_on(origin, b.enum_hash(variants, span).0),
{
    broadcast use {
        refuse_carries_on, emit_carries_on, hash_start_carries_on, combine_carries_on,
        hash_variants_carries_on, choose_variant_carries_on,
    };

    reveal(BodyView::enum_hash);
}

pub(crate) broadcast proof fn hash_variants_carries_on<'a>(
    origin: BodyView<'a>,
    b: BodyView<'a>,
    state: Value,
    value: Value,
    variants: Seq<VariantView>,
    span: Span,
    count: nat,
)
    requires
        carries_on(origin, b),
    ensures
        #[trigger] carries_on(origin, b.hash_variants(state, value, variants, span, count).0),
    decreases count,
{
    broadcast use {
        add_block_carries_on, switch_to_carries_on, hash_fields_carries_on, terminate_carries_on,
    };

    reveal(BodyView::hash_variants);
    if count > 0 {
        hash_variants_carries_on(origin, b, state, value, variants, span, (count - 1) as nat);
    }
}

pub(crate) broadcast proof fn string_carries_on<'a>(
    origin: BodyView<'a>,
    b: BodyView<'a>,
    text: Seq<char>,
    span: Span,
)
    requires
        carries_on(origin, b),
    ensures
        #[trigger] carries_on(origin, b.string(text, span).0),
{
    broadcast use emit_carries_on;

    reveal(BodyView::string);
}

pub(crate) broadcast proof fn concat_values_carries_on<'a>(
    origin: BodyView<'a>,
    b: BodyView<'a>,
    left: Value,
    right: Value,
    span: Span,
)
    requires
        carries_on(origin, b),
    ensures
        #[trigger] carries_on(origin, b.concat_values(left, right, span).0),
{
    broadcast use emit_carries_on;

    reveal(BodyView::concat_values);
}

pub(crate) broadcast proof fn append_text_carries_on<'a>(
    origin: BodyView<'a>,
    b: BodyView<'a>,
    left: Value,
    text: Seq<char>,
    span: Span,
)
    requires
        carries_on(origin, b),
    ensures
        #[trigger] carries_on(origin, b.append_text(left, text, span).0),
{
    broadcast use {string_carries_on, concat_values_carries_on};

    reveal(BodyView::append_text);
}

pub(crate) broadcast proof fn struct_display_carries_on<'a>(
    origin: BodyView<'a>,
    b: BodyView<'a>,
    owner: TypeId,
    fields: Seq<FieldView>,
    span: Span,
)
    requires
        carries_on(origin, b),
    ensures
        #[trigger] carries_on(origin, b.struct_display(owner, fields, span).0),
{
    broadcast use {
        refuse_carries_on, string_carries_on, display_fields_carries_on, append_text_carries_on,
        terminate_carries_on,
    };

    reveal(BodyView::struct_display);
}

pub(crate) broadcast proof fn display_fields_carries_on<'a>(
    origin: BodyView<'a>,
    b: BodyView<'a>,
    first: Value,
    value: Value,
    variant: Option<u32>,
    named: bool,
    fields: Seq<FieldView>,
    span: Span,
    count: nat,
)
    requires
        carries_on(origin, b),
    ensures
        #[trigger] carries_on(
            origin,
            b.display_fields(first, value, variant, named, fields, span, count).0,
        ),
    decreases count,
{
    broadcast use {
        append_text_carries_on, emit_carries_on, display_derived_carries_on,
        concat_values_carries_on,
    };

    reveal(BodyView::display_fields);
    if count > 0 {
        display_fields_carries_on(
            origin,
            b,
            first,
            value,
            variant,
            named,
            fields,
            span,
            (count - 1) as nat,
        );
    }
}

pub(crate) broadcast proof fn enum_display_carries_on<'a>(
    origin: BodyView<'a>,
    b: BodyView<'a>,
    owner: TypeId,
    variants: Seq<VariantView>,
    span: Span,
)
    requires
        carries_on(origin, b),
    ensures
        #[trigger] carries_on(origin, b.enum_display(owner, variants, span).0),
{
    broadcast use {
        refuse_carries_on, emit_carries_on, display_variants_carries_on, choose_variant_carries_on,
    };

    reveal(BodyView::enum_display);
}

pub(crate) broadcast proof fn display_variants_carries_on<'a>(
    origin: BodyView<'a>,
    b: BodyView<'a>,
    name: Seq<char>,
    value: Value,
    variants: Seq<VariantView>,
    span: Span,
    count: nat,
)
    requires
        carries_on(origin, b),
    ensures
        #[trigger] carries_on(origin, b.display_variants(name, value, variants, span, count).0),
    decreases count,
{
    broadcast use {
        add_block_carries_on, switch_to_carries_on, string_carries_on, display_fields_carries_on,
        append_text_carries_on, terminate_carries_on,
    };

    reveal(BodyView::display_variants);
    if count > 0 {
        display_variants_carries_on(origin, b, name, value, variants, span, (count - 1) as nat);
    }
}

pub(crate) broadcast proof fn display_bool_carries_on<'a>(
    origin: BodyView<'a>,
    b: BodyView<'a>,
    value: Value,
    span: Span,
)
    requires
        carries_on(origin, b),
    ensures
        #[trigger] carries_on(origin, b.display_bool(value, span).0),
{
    broadcast use {
        add_block_carries_on, branch_carries_on, switch_to_carries_on, string_carries_on,
        jump_with_carries_on, add_block_param_carries_on,
    };

    reveal(BodyView::display_bool);
}

pub(crate) broadcast proof fn split_optional_carries_on<'a>(
    origin: BodyView<'a>,
    b: BodyView<'a>,
    value: Value,
    span: Span,
)
    requires
        carries_on(origin, b),
    ensures
        #[trigger] carries_on(origin, b.split_optional(value, span).0),
{
    broadcast use {add_block_carries_on, emit_carries_on, branch_carries_on};

    reveal(BodyView::split_optional);
}

pub(crate) broadcast proof fn finish_optional_carries_on<'a>(
    origin: BodyView<'a>,
    b: BodyView<'a>,
    text: Value,
    ways: Ways,
    span: Span,
)
    requires
        carries_on(origin, b),
    ensures
        #[trigger] carries_on(origin, b.finish_optional(text, ways, span).0),
{
    broadcast use {
        jump_with_carries_on, switch_to_carries_on, string_carries_on, add_block_param_carries_on,
    };

    reveal(BodyView::finish_optional);
}

pub(crate) broadcast proof fn display_derived_carries_on<'a>(
    origin: BodyView<'a>,
    b: BodyView<'a>,
    value: Value,
    ty: TyView,
    span: Span,
)
    requires
        carries_on(origin, b),
    ensures
        #[trigger] carries_on(origin, b.display_derived(value, ty, span).0),
    decreases ty,
{
    broadcast use {
        emit_carries_on, display_bool_carries_on, split_optional_carries_on, switch_to_carries_on,
        finish_optional_carries_on,
    };

    reveal(BodyView::display_derived);
    match ty {
        TyView::Optional(inner) => {
            let (split, ways) = b.split_optional(value, span);
            let (there, held) = split.switch_to(ways.found).emit(
                InstKindView::Unwrap { value },
                *inner,
                span,
            );
            assert(carries_on(origin, there));
            display_derived_carries_on(origin, there, held, *inner, span);
        },
        _ => {},
    }
}

pub(crate) broadcast proof fn builtin_carries_on<'a>(
    origin: BodyView<'a>,
    b: BodyView<'a>,
    builtin: BuiltinCall,
    callee: Expr,
    args: Seq<Given<'a>>,
    span: Span,
    deeper: Deeper<'a>,
)
    requires
        carries_on(origin, b),
        steady(deeper),
    ensures
        #[trigger] carries_on(origin, b.builtin(builtin, callee, args, span, deeper).0),
{
    broadcast use {
        expr_carries_on, recorded_carries_on, emit_carries_on, checked_index_carries_on,
        contains_carries_on, ok_or_carries_on, map_err_carries_on, collection_mutation_carries_on,
        overflow_method_carries_on, intrinsic_carries_on,
    };

    reveal(BodyView::builtin);
}

pub(crate) broadcast proof fn memory_method_carries_on<'a>(
    origin: BodyView<'a>,
    b: BodyView<'a>,
    callee: Expr,
    name: Seq<char>,
    target: TyView,
    args: Seq<Given<'a>>,
    span: Span,
    deeper: Deeper<'a>,
)
    requires
        carries_on(origin, b),
        steady(deeper),
    ensures
        #[trigger] carries_on(origin, b.memory_method(callee, name, target, args, span, deeper).0),
{
    broadcast use {
        expr_carries_on, emit_carries_on, stored_carries_on, emit_void_carries_on, unit_carries_on,
        missing_carries_on,
    };

    reveal(BodyView::memory_method);
}

pub(crate) broadcast proof fn intrinsic_carries_on<'a>(
    origin: BodyView<'a>,
    b: BodyView<'a>,
    intrinsic: Intrinsic,
    args: Seq<Given<'a>>,
    span: Span,
    deeper: Deeper<'a>,
)
    requires
        carries_on(origin, b),
        steady(deeper),
    ensures
        #[trigger] carries_on(origin, b.intrinsic(intrinsic, args, span, deeper).0),
{
    broadcast use {
        recorded_carries_on, missing_carries_on, emit_carries_on, expr_carries_on, print_carries_on,
        unit_carries_on, assertion_carries_on,
    };

    reveal(BodyView::intrinsic);
}

pub(crate) broadcast proof fn print_carries_on<'a>(
    origin: BodyView<'a>,
    b: BodyView<'a>,
    args: Seq<Given<'a>>,
    span: Span,
    deeper: Deeper<'a>,
)
    requires
        carries_on(origin, b),
        steady(deeper),
    ensures
        #[trigger] carries_on(origin, b.print(args, span, deeper).0),
{
    broadcast use {
        emit_carries_on, emit_void_carries_on, unit_carries_on, run_each_carries_on,
        missing_carries_on, expr_carries_on, display_carries_on,
    };

    reveal(BodyView::print);
}

pub(crate) broadcast proof fn run_each_carries_on<'a>(
    origin: BodyView<'a>,
    b: BodyView<'a>,
    args: Seq<Given<'a>>,
    deeper: Deeper<'a>,
    count: nat,
)
    requires
        carries_on(origin, b),
        steady(deeper),
    ensures
        #[trigger] carries_on(origin, b.run_each(args, deeper, count)),
    decreases count,
{
    broadcast use expr_carries_on;

    reveal(BodyView::run_each);
    if count > 0 {
        run_each_carries_on(origin, b, args, deeper, (count - 1) as nat);
    }
}

pub(crate) broadcast proof fn assertion_carries_on<'a>(
    origin: BodyView<'a>,
    b: BodyView<'a>,
    args: Seq<Given<'a>>,
    span: Span,
    deeper: Deeper<'a>,
)
    requires
        carries_on(origin, b),
        steady(deeper),
    ensures
        #[trigger] carries_on(origin, b.assertion(args, span, deeper).0),
{
    broadcast use {
        assertion_values_carries_on, missing_carries_on, emit_void_carries_on, unit_carries_on,
    };

    reveal(BodyView::assertion);
}

pub(crate) broadcast proof fn assertion_values_carries_on<'a>(
    origin: BodyView<'a>,
    b: BodyView<'a>,
    args: Seq<Given<'a>>,
    slots: Seq<bool>,
    deeper: Deeper<'a>,
    count: nat,
)
    requires
        carries_on(origin, b),
        steady(deeper),
    ensures
        #[trigger] carries_on(origin, b.assertion_values(args, slots, deeper, count).0),
    decreases count,
{
    broadcast use expr_carries_on;

    reveal(BodyView::assertion_values);
    if count > 0 {
        assertion_values_carries_on(origin, b, args, slots, deeper, (count - 1) as nat);
    }
}

pub(crate) broadcast proof fn checked_index_carries_on<'a>(
    origin: BodyView<'a>,
    b: BodyView<'a>,
    callee: Expr,
    args: Seq<Given<'a>>,
    span: Span,
    deeper: Deeper<'a>,
)
    requires
        carries_on(origin, b),
        steady(deeper),
    ensures
        #[trigger] carries_on(origin, b.checked_index(callee, args, span, deeper).0),
{
    broadcast use {expr_carries_on, missing_carries_on, recorded_carries_on, emit_carries_on};

    reveal(BodyView::checked_index);
}

pub(crate) broadcast proof fn collection_mutation_carries_on<'a>(
    origin: BodyView<'a>,
    b: BodyView<'a>,
    mutation: CollectionMutation,
    callee: Expr,
    args: Seq<Given<'a>>,
    span: Span,
    deeper: Deeper<'a>,
)
    requires
        carries_on(origin, b),
        steady(deeper),
    ensures
        #[trigger] carries_on(
            origin,
            b.collection_mutation(mutation, callee, args, span, deeper).0,
        ),
{
    broadcast use {
        expr_carries_on, missing_carries_on, recorded_carries_on, emit_carries_on,
        emit_void_carries_on, unit_carries_on,
    };

    reveal(BodyView::collection_mutation);
}

pub(crate) broadcast proof fn contains_carries_on<'a>(
    origin: BodyView<'a>,
    b: BodyView<'a>,
    callee: Expr,
    args: Seq<Given<'a>>,
    span: Span,
    deeper: Deeper<'a>,
)
    requires
        carries_on(origin, b),
        steady(deeper),
    ensures
        #[trigger] carries_on(origin, b.contains(callee, args, span, deeper).0),
{
    broadcast use {expr_carries_on, missing_carries_on, emit_carries_on};

    reveal(BodyView::contains);
}

pub(crate) broadcast proof fn ok_or_carries_on<'a>(
    origin: BodyView<'a>,
    b: BodyView<'a>,
    callee: Expr,
    args: Seq<Given<'a>>,
    span: Span,
    deeper: Deeper<'a>,
)
    requires
        carries_on(origin, b),
        steady(deeper),
    ensures
        #[trigger] carries_on(origin, b.ok_or(callee, args, span, deeper).0),
{
    broadcast use {
        expr_carries_on, missing_carries_on, recorded_carries_on, stored_carries_on,
        add_block_carries_on, emit_carries_on, branch_carries_on, switch_to_carries_on,
        variant_with_carries_on, jump_with_carries_on, add_block_param_carries_on,
    };

    reveal(BodyView::ok_or);
}

pub(crate) broadcast proof fn map_err_carries_on<'a>(
    origin: BodyView<'a>,
    b: BodyView<'a>,
    callee: Expr,
    args: Seq<Given<'a>>,
    span: Span,
    deeper: Deeper<'a>,
)
    requires
        carries_on(origin, b),
        steady(deeper),
    ensures
        #[trigger] carries_on(origin, b.map_err(callee, args, span, deeper).0),
{
    broadcast use {
        expr_carries_on, missing_carries_on, recorded_carries_on, add_block_carries_on,
        error_test_carries_on, switch_to_carries_on, payload_carries_on, emit_carries_on,
        caught_or_raised_carries_on, variant_with_carries_on, jump_with_carries_on,
        add_block_param_carries_on,
    };

    reveal(BodyView::map_err);
}

pub(crate) broadcast proof fn overflow_method_carries_on<'a>(
    origin: BodyView<'a>,
    b: BodyView<'a>,
    method: OverflowMethod,
    callee: Expr,
    args: Seq<Given<'a>>,
    span: Span,
    deeper: Deeper<'a>,
)
    requires
        carries_on(origin, b),
        steady(deeper),
    ensures
        #[trigger] carries_on(origin, b.overflow_method(method, callee, args, span, deeper).0),
{
    broadcast use {missing_carries_on, recorded_carries_on, expr_carries_on, emit_carries_on};

    reveal(BodyView::overflow_method);
}

pub(crate) broadcast proof fn call_carries_on<'a>(
    origin: BodyView<'a>,
    b: BodyView<'a>,
    callee: Expr,
    method: Option<Seq<char>>,
    args: Seq<Given<'a>>,
    span: Span,
    deeper: Deeper<'a>,
)
    requires
        carries_on(origin, b),
        steady(deeper),
    ensures
        #[trigger] carries_on(origin, b.call(callee, method, args, span, deeper).0),
{
    broadcast use {
        builtin_carries_on, construction_carries_on, construct_carries_on, call_resolved_carries_on,
    };

    reveal(BodyView::call);
}

pub(crate) broadcast proof fn construction_carries_on<'a>(
    origin: BodyView<'a>,
    b: BodyView<'a>,
    callee: Expr,
    span: Span,
)
    requires
        carries_on(origin, b),
    ensures
        #[trigger] carries_on(origin, b.construction(callee, span).0),
{
    broadcast use {recorded_carries_on, variant_called_carries_on};

    reveal(BodyView::construction);
}

pub(crate) broadcast proof fn variant_called_carries_on<'a>(
    origin: BodyView<'a>,
    b: BodyView<'a>,
    name: Seq<char>,
    span: Span,
)
    requires
        carries_on(origin, b),
    ensures
        #[trigger] carries_on(origin, b.variant_called(name, span).0),
{
    broadcast use recorded_carries_on;

    reveal(BodyView::variant_called);
}

pub(crate) broadcast proof fn call_resolved_carries_on<'a>(
    origin: BodyView<'a>,
    b: BodyView<'a>,
    callee: Expr,
    method: Option<Seq<char>>,
    args: Seq<Given<'a>>,
    span: Span,
    deeper: Deeper<'a>,
)
    requires
        carries_on(origin, b),
        steady(deeper),
    ensures
        #[trigger] carries_on(origin, b.call_resolved(callee, method, args, span, deeper).0),
{
    broadcast use {
        through_carries_on, memory_method_carries_on, missing_carries_on, expr_carries_on,
        call_declared_carries_on,
    };

    reveal(BodyView::call_resolved);
}

pub(crate) broadcast proof fn call_declared_carries_on<'a>(
    origin: BodyView<'a>,
    b: BodyView<'a>,
    declaration: Span,
    receiver: Option<Value>,
    args: Seq<Given<'a>>,
    span: Span,
    deeper: Deeper<'a>,
)
    requires
        carries_on(origin, b),
        steady(deeper),
    ensures
        #[trigger] carries_on(origin, b.call_declared(declaration, receiver, args, span, deeper).0),
{
    broadcast use {dispatch_carries_on, missing_carries_on, call_reached_carries_on};

    reveal(BodyView::call_declared);
}

pub(crate) broadcast proof fn call_reached_carries_on<'a>(
    origin: BodyView<'a>,
    b: BodyView<'a>,
    reached: CalleeView<'a>,
    receiver: Option<Value>,
    args: Seq<Given<'a>>,
    span: Span,
    deeper: Deeper<'a>,
)
    requires
        carries_on(origin, b),
        steady(deeper),
    ensures
        #[trigger] carries_on(origin, b.call_reached(reached, receiver, args, span, deeper).0),
{
    broadcast use {
        missing_carries_on, given_values_carries_on, supply_carries_on, emit_carries_on,
        finish_call_carries_on,
    };

    reveal(BodyView::call_reached);
}

pub(crate) broadcast proof fn finish_call_carries_on<'a>(
    origin: BodyView<'a>,
    b: BodyView<'a>,
    kind: InstKindView,
    throws: bool,
    asynchronous: bool,
    span: Span,
    deeper: Deeper<'a>,
)
    requires
        carries_on(origin, b),
        steady(deeper),
    ensures
        #[trigger] carries_on(origin, b.finish_call(kind, throws, asynchronous, span, deeper).0),
{
    broadcast use {recorded_carries_on, finish_typed_carries_on};

    reveal(BodyView::finish_call);
}

pub(crate) broadcast proof fn finish_typed_carries_on<'a>(
    origin: BodyView<'a>,
    b: BodyView<'a>,
    kind: InstKindView,
    throws: bool,
    asynchronous: bool,
    result: TyView,
    span: Span,
    deeper: Deeper<'a>,
)
    requires
        carries_on(origin, b),
        steady(deeper),
    ensures
        #[trigger] carries_on(
            origin,
            b.finish_typed(kind, throws, asynchronous, result, span, deeper).0,
        ),
{
    broadcast use {
        missing_carries_on, emit_carries_on, completed_task_carries_on, completed_result_carries_on,
        caught_or_raised_carries_on,
    };

    reveal(BodyView::finish_typed);
}

pub(crate) broadcast proof fn given_values_carries_on<'a>(
    origin: BodyView<'a>,
    b: BodyView<'a>,
    args: Seq<Given<'a>>,
    slots: Seq<Option<usize>>,
    wanted: Seq<TyView>,
    deeper: Deeper<'a>,
    count: nat,
)
    requires
        carries_on(origin, b),
        steady(deeper),
    ensures
        #[trigger] carries_on(origin, b.given_values(args, slots, wanted, deeper, count).0),
    decreases count,
{
    broadcast use stored_carries_on;

    reveal(BodyView::given_values);
    if count > 0 {
        given_values_carries_on(origin, b, args, slots, wanted, deeper, (count - 1) as nat);
    }
}

pub(crate) broadcast proof fn supply_carries_on<'a>(
    origin: BodyView<'a>,
    b: BodyView<'a>,
    reached: CalleeView<'a>,
    variadic: Option<usize>,
    filled: Seq<Option<Value>>,
    wanted: Seq<TyView>,
    limit: nat,
    deeper: Deeper<'a>,
    count: nat,
)
    requires
        carries_on(origin, b),
        steady(deeper),
    ensures
        #[trigger] carries_on(
            origin,
            b.supply(reached, variadic, filled, wanted, limit, deeper, count).0,
        ),
    decreases count,
{
    broadcast use stored_carries_on;

    reveal(BodyView::supply);
    if count > 0 {
        supply_carries_on(
            origin,
            b,
            reached,
            variadic,
            filled,
            wanted,
            limit,
            deeper,
            (count - 1) as nat,
        );
    }
}

pub(crate) broadcast proof fn through_carries_on<'a>(
    origin: BodyView<'a>,
    b: BodyView<'a>,
    callee: Expr,
    args: Seq<Given<'a>>,
    span: Span,
    deeper: Deeper<'a>,
)
    requires
        carries_on(origin, b),
        steady(deeper),
    ensures
        #[trigger] carries_on(origin, b.through(callee, args, span, deeper).0),
{
    broadcast use {
        expr_carries_on, missing_carries_on, pass_each_carries_on, finish_typed_carries_on,
    };

    reveal(BodyView::through);
}

pub(crate) broadcast proof fn pass_each_carries_on<'a>(
    origin: BodyView<'a>,
    b: BodyView<'a>,
    args: Seq<Given<'a>>,
    types: Seq<TyView>,
    deeper: Deeper<'a>,
    count: nat,
)
    requires
        carries_on(origin, b),
        steady(deeper),
    ensures
        #[trigger] carries_on(origin, b.pass_each(args, types, deeper, count).0),
    decreases count,
{
    broadcast use stored_carries_on;

    reveal(BodyView::pass_each);
    if count > 0 {
        pass_each_carries_on(origin, b, args, types, deeper, (count - 1) as nat);
    }
}

pub(crate) broadcast proof fn dispatch_carries_on<'a>(
    origin: BodyView<'a>,
    b: BodyView<'a>,
    method: MethodId,
    receiver: Option<Value>,
    args: Seq<Given<'a>>,
    span: Span,
    deeper: Deeper<'a>,
)
    requires
        carries_on(origin, b),
        steady(deeper),
    ensures
        #[trigger] carries_on(origin, b.dispatch(method, receiver, args, span, deeper).0),
{
    broadcast use {missing_carries_on, pass_plain_carries_on, finish_call_carries_on};

    reveal(BodyView::dispatch);
}

pub(crate) broadcast proof fn pass_plain_carries_on<'a>(
    origin: BodyView<'a>,
    b: BodyView<'a>,
    args: Seq<Given<'a>>,
    deeper: Deeper<'a>,
    count: nat,
)
    requires
        carries_on(origin, b),
        steady(deeper),
    ensures
        #[trigger] carries_on(origin, b.pass_plain(args, deeper, count).0),
    decreases count,
{
    broadcast use stored_carries_on;

    reveal(BodyView::pass_plain);
    if count > 0 {
        pass_plain_carries_on(origin, b, args, deeper, (count - 1) as nat);
    }
}

pub(crate) broadcast proof fn closure_carries_on<'a>(
    origin: BodyView<'a>,
    b: BodyView<'a>,
    asynchronous: bool,
    params: Seq<Param>,
    body: FunctionBody,
    span: Span,
    deeper: Deeper<'a>,
)
    requires
        carries_on(origin, b),
        steady(deeper),
    ensures
        #[trigger] carries_on(origin, b.closure(asynchronous, params, body, span, deeper).0),
{
    broadcast use {
        recorded_carries_on, missing_carries_on, lower_closure_carries_on, emit_carries_on,
    };

    reveal(BodyView::closure);
}

pub(crate) broadcast proof fn lower_into_carries_on<'a>(
    origin: BodyView<'a>,
    b: BodyView<'a>,
    closure: bool,
    captured: Seq<Seq<char>>,
    types: Seq<TyView>,
    bindings: Seq<Bound<'a>>,
    body: FunctionBody,
    deeper: Deeper<'a>,
)
    requires
        carries_on(origin, b),
        steady(deeper),
    ensures
        #[trigger] carries_on(
            origin,
            b.lower_into(closure, captured, types, bindings, body, deeper),
        ),
{
    broadcast use {
        enter_carries_on, block_carries_on, open_carries_on, ret_carries_on, close_carries_on,
        run_off_carries_on,
    };

    reveal(BodyView::lower_into);
}

pub(crate) broadcast proof fn lower_block_carries_on<'a>(
    origin: BodyView<'a>,
    b: BodyView<'a>,
    bindings: Seq<Bound<'a>>,
    block: Block,
    deeper: Deeper<'a>,
)
    requires
        carries_on(origin, b),
        steady(deeper),
    ensures
        #[trigger] carries_on(origin, b.lower_block(bindings, block, deeper)),
{
    broadcast use {enter_carries_on, block_carries_on, run_off_carries_on};

    reveal(BodyView::lower_block);
}

pub(crate) broadcast proof fn enter_carries_on<'a>(
    origin: BodyView<'a>,
    b: BodyView<'a>,
    closure: bool,
    captured: Seq<Seq<char>>,
    types: Seq<TyView>,
    bindings: Seq<Bound<'a>>,
    span: Span,
    deeper: Deeper<'a>,
)
    requires
        carries_on(origin, b),
        steady(deeper),
    ensures
        #[trigger] carries_on(origin, b.enter(closure, captured, types, bindings, span, deeper)),
{
    broadcast use {bind_captured_carries_on, bind_entry_carries_on};

    reveal(BodyView::enter);
}

pub(crate) broadcast proof fn run_off_carries_on<'a>(
    origin: BodyView<'a>,
    b: BodyView<'a>,
    span: Span,
)
    requires
        carries_on(origin, b),
    ensures
        #[trigger] carries_on(origin, b.run_off(span)),
{
    broadcast use {unit_carries_on, returned_carries_on, terminate_carries_on};

    reveal(BodyView::run_off);
}

pub(crate) broadcast proof fn bind_captured_carries_on<'a>(
    origin: BodyView<'a>,
    b: BodyView<'a>,
    object: Value,
    captured: Seq<Seq<char>>,
    types: Seq<TyView>,
    span: Span,
    count: nat,
)
    requires
        carries_on(origin, b),
    ensures
        #[trigger] carries_on(origin, b.bind_captured(object, captured, types, span, count)),
    decreases count,
{
    broadcast use {emit_carries_on, bind_name_carries_on};

    reveal(BodyView::bind_captured);
    if count > 0 {
        bind_captured_carries_on(origin, b, object, captured, types, span, (count - 1) as nat);
    }
}

pub(crate) broadcast proof fn bind_entry_carries_on<'a>(
    origin: BodyView<'a>,
    b: BodyView<'a>,
    bindings: Seq<Bound<'a>>,
    passed: Seq<Value>,
    span: Span,
    deeper: Deeper<'a>,
    count: nat,
)
    requires
        carries_on(origin, b),
        steady(deeper),
    ensures
        #[trigger] carries_on(origin, b.bind_entry(bindings, passed, span, deeper, count)),
    decreases count,
{
    broadcast use {bind_name_carries_on, bind_value_carries_on};

    reveal(BodyView::bind_entry);
    if count > 0 {
        bind_entry_carries_on(origin, b, bindings, passed, span, deeper, (count - 1) as nat);
    }
}

#[verifier::rlimit(40)]
pub(crate) broadcast proof fn lower_closure_carries_on<'a>(
    origin: BodyView<'a>,
    b: BodyView<'a>,
    ty: TyView,
    captures: CapturesView,
    params: Seq<Param>,
    body: FunctionBody,
    span: Span,
    deeper: Deeper<'a>,
)
    requires
        carries_on(origin, b),
        steady(deeper),
    ensures
        #[trigger] carries_on(
            origin,
            b.lower_closure(ty, captures, params, body, span, deeper).0,
        ),
{
    reveal(BodyView::lower_closure);
    match function_of_view(ty) {
        Some(shape) => {
            if b.next_function < u32::MAX && shape.params.len() < id_limit() {
                let id = FuncId(b.next_function);
                let shell = FunctionView {
                    asynchronous: shape.asynchronous,
                    ..FunctionView::fresh(
                        closure_name(b.function.name, id),
                        seq![ty] + shape.params,
                        thrown_or_view(shape.result),
                        span,
                    )
                };
                let fresh = BodyView::fresh(
                    b.context,
                    shell,
                    true,
                    in_body(Seq::empty(), body, Seeking::Assigned),
                    (b.next_function + 1) as u32,
                );
                let types = captured_types(b, captures.vars);
                let bound = bound_params_view(params);
                still(fresh);
                lower_into_carries_on(
                    fresh,
                    fresh,
                    true,
                    captures.names,
                    types,
                    bound,
                    body,
                    deeper,
                );
                let inner = fresh.lower_into(true, captures.names, types, bound, body, deeper);
                let after = b.lower_closure(ty, captures, params, body, span, deeper).0;
                reveal(carries_on);
                reveal(BodyView::fresh);
                assert forall|i: int| origin.made.len() <= i < after.made.len() implies (
                #[trigger] after.made[i]).0 == FuncId(
                    (origin.next_function + i - origin.made.len()) as u32,
                ) by {
                    if i < b.made.len() {
                        assert(after.made[i] == b.made[i]);
                    } else if i > b.made.len() {
                        assert(after.made[i] == inner.made[i - b.made.len() - 1]);
                    }
                }
            }
        },
        None => {},
    }
}

pub(crate) broadcast proof fn counted_carries_on<'a>(
    origin: BodyView<'a>,
    b: BodyView<'a>,
    bindings: Seq<Binding>,
    iterable: Expr,
    span: Span,
    deeper: Deeper<'a>,
)
    requires
        carries_on(origin, b),
        steady(deeper),
    ensures
        #[trigger] carries_on(origin, b.counted(bindings, iterable, span, deeper).0),
{
    broadcast use {
        uncounted_carries_on, counter_type_carries_on, expr_carries_on, declare_carries_on,
        counted_down_carries_on, counted_through_carries_on,
    };

    reveal(BodyView::counted);
}

pub(crate) broadcast proof fn uncounted_carries_on<'a>(
    origin: BodyView<'a>,
    b: BodyView<'a>,
    span: Span,
    what: Seq<char>,
)
    requires
        carries_on(origin, b),
    ensures
        #[trigger] carries_on(origin, b.uncounted(span, what).0),
{
    broadcast use gap_carries_on;

    reveal(BodyView::uncounted);
}

pub(crate) broadcast proof fn counter_type_carries_on<'a>(
    origin: BodyView<'a>,
    b: BodyView<'a>,
    start: Expr,
    span: Span,
)
    requires
        carries_on(origin, b),
    ensures
        #[trigger] carries_on(origin, b.counter_type(start, span).0),
{
    broadcast use declared_type_carries_on;

    reveal(BodyView::counter_type);
}

pub(crate) broadcast proof fn counted_down_carries_on<'a>(
    origin: BodyView<'a>,
    b: BodyView<'a>,
    callee: Expr,
    span: Span,
    deeper: Deeper<'a>,
)
    requires
        carries_on(origin, b),
        steady(deeper),
    ensures
        #[trigger] carries_on(origin, b.counted_down(callee, span, deeper).0),
{
    broadcast use {
        uncounted_carries_on, counter_type_carries_on, expr_carries_on, declare_carries_on,
    };

    reveal(BodyView::counted_down);
}

pub(crate) broadcast proof fn counted_through_carries_on<'a>(
    origin: BodyView<'a>,
    b: BodyView<'a>,
    iterable: Expr,
    indexed: bool,
    span: Span,
    deeper: Deeper<'a>,
)
    requires
        carries_on(origin, b),
        steady(deeper),
    ensures
        #[trigger] carries_on(origin, b.counted_through(iterable, indexed, span, deeper).0),
{
    broadcast use {expr_carries_on, uncounted_carries_on, emit_carries_on, declare_carries_on};

    reveal(BodyView::counted_through);
}

pub(crate) broadcast proof fn for_stmt_carries_on<'a>(
    origin: BodyView<'a>,
    b: BodyView<'a>,
    label: Option<Seq<char>>,
    bindings: Seq<Binding>,
    iterable: Expr,
    body: Block,
    span: Span,
    deeper: Deeper<'a>,
)
    requires
        carries_on(origin, b),
        steady(deeper),
    ensures
        #[trigger] carries_on(origin, b.for_stmt(label, bindings, iterable, body, span, deeper)),
{
    broadcast use {
        add_block_carries_on, open_carries_on, counted_carries_on, for_counted_carries_on,
    };

    reveal(BodyView::for_stmt);
}

pub(crate) broadcast proof fn for_counted_carries_on<'a>(
    origin: BodyView<'a>,
    b: BodyView<'a>,
    label: Option<Seq<char>>,
    bindings: Seq<Binding>,
    counted: CountedView,
    carried: Seq<u32>,
    header: BlockId,
    body: Block,
    span: Span,
    deeper: Deeper<'a>,
)
    requires
        carries_on(origin, b),
        steady(deeper),
    ensures
        #[trigger] carries_on(
            origin,
            b.for_counted(label, bindings, counted, carried, header, body, span, deeper),
        ),
{
    broadcast use {
        set_def_carries_on, jump_to_carries_on, switch_to_carries_on, add_params_carries_on,
        bind_params_carries_on, goes_on_carries_on, add_block_carries_on, terminate_carries_on,
        restore_carries_on, bind_counted_carries_on, push_loop_carries_on, block_carries_on,
        pop_loop_carries_on, stop_at_last_carries_on, count_on_carries_on, close_carries_on,
    };

    reveal(BodyView::for_counted);
}

pub(crate) broadcast proof fn stop_at_last_carries_on<'a>(
    origin: BodyView<'a>,
    b: BodyView<'a>,
    source: Source,
    current: Value,
    exit: BlockId,
    carried: Seq<u32>,
    span: Span,
)
    requires
        carries_on(origin, b),
    ensures
        #[trigger] carries_on(origin, b.stop_at_last(source, current, exit, carried, span)),
{
    broadcast use {
        emit_carries_on, add_block_carries_on, terminate_carries_on, switch_to_carries_on,
    };

    reveal(BodyView::stop_at_last);
}

pub(crate) broadcast proof fn count_on_carries_on<'a>(
    origin: BodyView<'a>,
    b: BodyView<'a>,
    source: Source,
    current: Value,
    element: TyView,
    span: Span,
)
    requires
        carries_on(origin, b),
    ensures
        #[trigger] carries_on(origin, b.count_on(source, current, element, span).0),
{
    broadcast use emit_carries_on;

    reveal(BodyView::count_on);
}

pub(crate) broadcast proof fn goes_on_carries_on<'a>(
    origin: BodyView<'a>,
    b: BodyView<'a>,
    source: Source,
    current: Value,
    span: Span,
)
    requires
        carries_on(origin, b),
    ensures
        #[trigger] carries_on(origin, b.goes_on(source, current, span).0),
{
    broadcast use emit_carries_on;

    reveal(BodyView::goes_on);
}

pub(crate) broadcast proof fn bind_counted_carries_on<'a>(
    origin: BodyView<'a>,
    b: BodyView<'a>,
    counted: CountedView,
    current: Value,
    bindings: Seq<Binding>,
    step: BlockId,
    leaving: Seq<Value>,
    span: Span,
    deeper: Deeper<'a>,
)
    requires
        carries_on(origin, b),
        steady(deeper),
    ensures
        #[trigger] carries_on(
            origin,
            b.bind_counted(counted, current, bindings, step, leaving, span, deeper),
        ),
{
    broadcast use {
        emit_carries_on, bind_each_carries_on, add_block_carries_on, terminate_carries_on,
        switch_to_carries_on, bind_entries_carries_on,
    };

    reveal(BodyView::bind_counted);
}

pub(crate) broadcast proof fn bind_each_carries_on<'a>(
    origin: BodyView<'a>,
    b: BodyView<'a>,
    bindings: Seq<Binding>,
    values: Seq<Value>,
    span: Span,
    deeper: Deeper<'a>,
    count: nat,
)
    requires
        carries_on(origin, b),
        steady(deeper),
    ensures
        #[trigger] carries_on(origin, b.bind_each(bindings, values, span, deeper, count)),
    decreases count,
{
    broadcast use bind_value_carries_on;

    reveal(BodyView::bind_each);
    if count > 0 {
        bind_each_carries_on(origin, b, bindings, values, span, deeper, (count - 1) as nat);
    }
}

pub(crate) broadcast proof fn bind_entries_carries_on<'a>(
    origin: BodyView<'a>,
    b: BodyView<'a>,
    bindings: Seq<Binding>,
    receiver: Value,
    current: Value,
    held: Seq<TyView>,
    span: Span,
    deeper: Deeper<'a>,
    count: nat,
)
    requires
        carries_on(origin, b),
        steady(deeper),
    ensures
        #[trigger] carries_on(
            origin,
            b.bind_entries(bindings, receiver, current, held, span, deeper, count),
        ),
    decreases count,
{
    broadcast use {emit_carries_on, bind_value_carries_on};

    reveal(BodyView::bind_entries);
    if count > 0 {
        bind_entries_carries_on(
            origin,
            b,
            bindings,
            receiver,
            current,
            held,
            span,
            deeper,
            (count - 1) as nat,
        );
    }
}

pub(crate) broadcast proof fn expr_within_carries_on<'a>(
    origin: BodyView<'a>,
    b: BodyView<'a>,
    expr: Expr,
    wanted: Option<TyView>,
    deeper: Deeper<'a>,
)
    requires
        carries_on(origin, b),
        steady(deeper),
    ensures
        #[trigger] carries_on(origin, b.expr_within(expr, wanted, deeper).0),
{
    broadcast use {expr_value_carries_on, coerce_carries_on};

    reveal(BodyView::expr_within);
}

pub(crate) broadcast proof fn expr_value_carries_on<'a>(
    origin: BodyView<'a>,
    b: BodyView<'a>,
    expr: Expr,
    wanted: Option<TyView>,
    deeper: Deeper<'a>,
)
    requires
        carries_on(origin, b),
        steady(deeper),
    ensures
        #[trigger] carries_on(origin, b.expr_value(expr, wanted, deeper).0),
{
    broadcast use {
        emit_carries_on, numeric_carries_on, interpolation_carries_on, name_carries_on,
        unary_carries_on, binary_carries_on, range_carries_on, call_carries_on, record_carries_on,
        closure_carries_on, list_carries_on, map_carries_on, set_carries_on, index_carries_on,
        field_carries_on, tuple_carries_on, if_expr_carries_on, propagate_carries_on,
        missing_carries_on, recorded_carries_on, expr_carries_on, address_carries_on,
    };

    reveal(BodyView::expr_value);
}

pub(crate) broadcast proof fn name_carries_on<'a>(
    origin: BodyView<'a>,
    b: BodyView<'a>,
    name: Seq<char>,
    wanted: Option<TyView>,
    span: Span,
    deeper: Deeper<'a>,
)
    requires
        carries_on(origin, b),
        steady(deeper),
    ensures
        #[trigger] carries_on(origin, b.name(name, wanted, span, deeper).0),
{
    broadcast use {read_var_carries_on, emit_carries_on, constant_carries_on};

    reveal(BodyView::name);
}

pub(crate) broadcast proof fn unary_carries_on<'a>(
    origin: BodyView<'a>,
    b: BodyView<'a>,
    op: AstUnary,
    operand: Expr,
    wanted: Option<TyView>,
    span: Span,
    deeper: Deeper<'a>,
)
    requires
        carries_on(origin, b),
        steady(deeper),
    ensures
        #[trigger] carries_on(origin, b.unary(op, operand, wanted, span, deeper).0),
{
    broadcast use {call_carries_on, settled_type_carries_on, expr_carries_on, emit_carries_on};

    reveal(BodyView::unary);
}

pub(crate) broadcast proof fn range_carries_on<'a>(
    origin: BodyView<'a>,
    b: BodyView<'a>,
    start: Option<Box<Expr>>,
    end: Option<Box<Expr>>,
    span: Span,
    deeper: Deeper<'a>,
)
    requires
        carries_on(origin, b),
        steady(deeper),
    ensures
        #[trigger] carries_on(origin, b.range(start, end, span, deeper).0),
{
    broadcast use {recorded_carries_on, bound_carries_on, emit_carries_on};

    reveal(BodyView::range);
}

pub(crate) broadcast proof fn bound_carries_on<'a>(
    origin: BodyView<'a>,
    b: BodyView<'a>,
    written: Option<Box<Expr>>,
    bound: TyView,
    span: Span,
    deeper: Deeper<'a>,
)
    requires
        carries_on(origin, b),
        steady(deeper),
    ensures
        #[trigger] carries_on(origin, b.bound(written, bound, span, deeper).0),
{
    broadcast use {expr_carries_on, emit_carries_on};

    reveal(BodyView::bound);
}

pub(crate) broadcast proof fn tuple_carries_on<'a>(
    origin: BodyView<'a>,
    b: BodyView<'a>,
    members: Seq<Expr>,
    wanted: Option<TyView>,
    span: Span,
    deeper: Deeper<'a>,
)
    requires
        carries_on(origin, b),
        steady(deeper),
    ensures
        #[trigger] carries_on(origin, b.tuple(members, wanted, span, deeper).0),
{
    broadcast use {
        unit_carries_on, recorded_carries_on, missing_carries_on, each_member_carries_on,
        emit_carries_on,
    };

    reveal(BodyView::tuple);
}

pub(crate) broadcast proof fn each_member_carries_on<'a>(
    origin: BodyView<'a>,
    b: BodyView<'a>,
    members: Seq<Expr>,
    types: Seq<TyView>,
    deeper: Deeper<'a>,
    count: nat,
)
    requires
        carries_on(origin, b),
        steady(deeper),
    ensures
        #[trigger] carries_on(origin, b.each_member(members, types, deeper, count).0),
    decreases count,
{
    broadcast use expr_carries_on;

    reveal(BodyView::each_member);
    if count > 0 {
        each_member_carries_on(origin, b, members, types, deeper, (count - 1) as nat);
    }
}

pub(crate) broadcast proof fn address_carries_on<'a>(
    origin: BodyView<'a>,
    b: BodyView<'a>,
    mutable: bool,
    operand: Expr,
    span: Span,
    deeper: Deeper<'a>,
)
    requires
        carries_on(origin, b),
        steady(deeper),
    ensures
        #[trigger] carries_on(origin, b.address(mutable, operand, span, deeper).0),
{
    broadcast use {
        missing_carries_on, recorded_carries_on, emit_carries_on, expr_carries_on,
        settled_carries_on,
    };

    reveal(BodyView::address);
}

pub(crate) broadcast proof fn interpolation_carries_on<'a>(
    origin: BodyView<'a>,
    b: BodyView<'a>,
    parts: Seq<InterpolationPart>,
    span: Span,
    deeper: Deeper<'a>,
)
    requires
        carries_on(origin, b),
        steady(deeper),
    ensures
        #[trigger] carries_on(origin, b.interpolation(parts, span, deeper).0),
{
    broadcast use {emit_carries_on, interpolated_carries_on};

    reveal(BodyView::interpolation);
}

pub(crate) broadcast proof fn interpolated_carries_on<'a>(
    origin: BodyView<'a>,
    b: BodyView<'a>,
    first: Value,
    parts: Seq<InterpolationPart>,
    span: Span,
    deeper: Deeper<'a>,
    count: nat,
)
    requires
        carries_on(origin, b),
        steady(deeper),
    ensures
        #[trigger] carries_on(origin, b.interpolated(first, parts, span, deeper, count).0),
    decreases count,
{
    broadcast use {emit_carries_on, expr_carries_on, display_carries_on};

    reveal(BodyView::interpolated);
    if count > 0 {
        interpolated_carries_on(origin, b, first, parts, span, deeper, (count - 1) as nat);
    }
}

pub(crate) broadcast proof fn propagate_carries_on<'a>(
    origin: BodyView<'a>,
    b: BodyView<'a>,
    inner: Expr,
    span: Span,
    deeper: Deeper<'a>,
)
    requires
        carries_on(origin, b),
        steady(deeper),
    ensures
        #[trigger] carries_on(origin, b.propagate(inner, span, deeper).0),
{
    broadcast use {
        expr_carries_on, missing_carries_on, add_block_carries_on, error_test_carries_on,
        switch_to_carries_on, payload_carries_on, propagated_error_carries_on,
        variant_with_carries_on, unwind_from_carries_on, returned_carries_on, terminate_carries_on,
    };

    reveal(BodyView::propagate);
}

pub(crate) broadcast proof fn propagated_error_carries_on<'a>(
    origin: BodyView<'a>,
    b: BodyView<'a>,
    error: Value,
    wanted: TyView,
    span: Span,
)
    requires
        carries_on(origin, b),
    ensures
        #[trigger] carries_on(origin, b.propagated_error(error, wanted, span).0),
{
    broadcast use {missing_carries_on, emit_carries_on};

    reveal(BodyView::propagated_error);
}

pub(crate) broadcast proof fn binary_carries_on<'a>(
    origin: BodyView<'a>,
    b: BodyView<'a>,
    op: AstBinary,
    op_span: Span,
    left: Expr,
    right: Expr,
    span: Span,
    deeper: Deeper<'a>,
)
    requires
        carries_on(origin, b),
        steady(deeper),
    ensures
        #[trigger] carries_on(origin, b.binary(op, op_span, left, right, span, deeper).0),
{
    broadcast use {
        nil_test_carries_on, missing_carries_on, through_protocol_carries_on, logical_carries_on,
        coalesce_carries_on, operand_type_carries_on, expr_carries_on, emit_carries_on,
    };

    reveal(BodyView::binary);
}

pub(crate) broadcast proof fn nil_test_carries_on<'a>(
    origin: BodyView<'a>,
    b: BodyView<'a>,
    op: AstBinary,
    value: Expr,
    span: Span,
    deeper: Deeper<'a>,
)
    requires
        carries_on(origin, b),
        steady(deeper),
    ensures
        #[trigger] carries_on(origin, b.nil_test(op, value, span, deeper).0),
{
    broadcast use {expr_carries_on, emit_carries_on};

    reveal(BodyView::nil_test);
}

pub(crate) broadcast proof fn through_protocol_carries_on<'a>(
    origin: BodyView<'a>,
    b: BodyView<'a>,
    protocol: Seq<char>,
    method: Seq<char>,
    op: AstBinary,
    left: Expr,
    right: Expr,
    span: Span,
    deeper: Deeper<'a>,
)
    requires
        carries_on(origin, b),
        steady(deeper),
    ensures
        #[trigger] carries_on(
            origin,
            b.through_protocol(protocol, method, op, left, right, span, deeper).0,
        ),
{
    broadcast use {call_carries_on, emit_carries_on, missing_carries_on};

    reveal(BodyView::through_protocol);
}

pub(crate) broadcast proof fn logical_carries_on<'a>(
    origin: BodyView<'a>,
    b: BodyView<'a>,
    all: bool,
    left: Expr,
    right: Expr,
    span: Span,
    deeper: Deeper<'a>,
)
    requires
        carries_on(origin, b),
        steady(deeper),
    ensures
        #[trigger] carries_on(origin, b.logical(all, left, right, span, deeper).0),
{
    broadcast use {
        expr_carries_on, add_block_carries_on, emit_carries_on, terminate_carries_on,
        switch_to_carries_on, jump_with_carries_on, add_block_param_carries_on,
    };

    reveal(BodyView::logical);
}

pub(crate) broadcast proof fn coalesce_carries_on<'a>(
    origin: BodyView<'a>,
    b: BodyView<'a>,
    left: Expr,
    right: Expr,
    span: Span,
    deeper: Deeper<'a>,
)
    requires
        carries_on(origin, b),
        steady(deeper),
    ensures
        #[trigger] carries_on(origin, b.coalesce(left, right, span, deeper).0),
{
    broadcast use {
        recorded_carries_on, expr_carries_on, split_optional_carries_on, give_present_carries_on,
        switch_to_carries_on, jump_with_carries_on, add_block_param_carries_on,
    };

    reveal(BodyView::coalesce);
}

pub(crate) broadcast proof fn give_present_carries_on<'a>(
    origin: BodyView<'a>,
    b: BodyView<'a>,
    left: Value,
    ty: TyView,
    ways: Ways,
    span: Span,
)
    requires
        carries_on(origin, b),
    ensures
        #[trigger] carries_on(origin, b.give_present(left, ty, ways, span)),
{
    broadcast use {switch_to_carries_on, emit_carries_on, jump_with_carries_on};

    reveal(BodyView::give_present);
}

pub(crate) broadcast proof fn if_expr_carries_on<'a>(
    origin: BodyView<'a>,
    b: BodyView<'a>,
    branches: Seq<IfBranch>,
    otherwise: Expr,
    span: Span,
    deeper: Deeper<'a>,
)
    requires
        carries_on(origin, b),
        steady(deeper),
    ensures
        #[trigger] carries_on(origin, b.if_expr(branches, otherwise, span, deeper).0),
{
    broadcast use {
        recorded_carries_on, add_block_carries_on, if_values_carries_on, expr_carries_on,
        join_carrying_carries_on,
    };

    reveal(BodyView::if_expr);
}

pub(crate) broadcast proof fn if_values_carries_on<'a>(
    origin: BodyView<'a>,
    b: BodyView<'a>,
    branches: Seq<IfBranch>,
    ty: TyView,
    span: Span,
    deeper: Deeper<'a>,
    count: nat,
)
    requires
        carries_on(origin, b),
        steady(deeper),
    ensures
        #[trigger] carries_on(origin, b.if_values(branches, ty, span, deeper, count).0),
    decreases count,
{
    broadcast use {
        expr_carries_on, add_block_carries_on, branch_carries_on, switch_to_carries_on,
        restore_carries_on,
    };

    reveal(BodyView::if_values);
    if count > 0 {
        if_values_carries_on(origin, b, branches, ty, span, deeper, (count - 1) as nat);
    }
}

pub(crate) broadcast proof fn block_within_carries_on<'a>(
    origin: BodyView<'a>,
    b: BodyView<'a>,
    block: Block,
    deeper: Deeper<'a>,
)
    requires
        carries_on(origin, b),
        steady(deeper),
    ensures
        #[trigger] carries_on(origin, b.block_within(block, deeper)),
{
    broadcast use {open_carries_on, stmts_carries_on, close_carries_on};

    reveal(BodyView::block_within);
}

pub(crate) broadcast proof fn stmts_within_carries_on<'a>(
    origin: BodyView<'a>,
    b: BodyView<'a>,
    stmts: Seq<Stmt>,
    deeper: Deeper<'a>,
    count: nat,
)
    requires
        carries_on(origin, b),
        steady(deeper),
    ensures
        #[trigger] carries_on(origin, b.stmts_within(stmts, deeper, count)),
    decreases count,
{
    broadcast use stmt_carries_on;

    reveal(BodyView::stmts_within);
    if count > 0 {
        stmts_within_carries_on(origin, b, stmts, deeper, (count - 1) as nat);
    }
}

pub(crate) broadcast proof fn stmt_carries_on<'a>(
    origin: BodyView<'a>,
    b: BodyView<'a>,
    stmt: Stmt,
    deeper: Deeper<'a>,
)
    requires
        carries_on(origin, b),
        steady(deeper),
    ensures
        #[trigger] carries_on(origin, b.stmt(stmt, deeper)),
{
    broadcast use {
        local_carries_on, assign_carries_on, ret_carries_on, if_stmt_carries_on,
        while_stmt_carries_on, repeat_stmt_carries_on, for_stmt_carries_on, leave_carries_on,
        match_stmt_carries_on, defer_carries_on, expr_carries_on, raise_carries_on,
        try_stmt_carries_on, block_carries_on,
    };

    reveal(BodyView::stmt);
}

pub(crate) broadcast proof fn local_carries_on<'a>(
    origin: BodyView<'a>,
    b: BodyView<'a>,
    binding: Binding,
    value: Option<&'a Expr>,
    span: Span,
    deeper: Deeper<'a>,
)
    requires
        carries_on(origin, b),
        steady(deeper),
    ensures
        #[trigger] carries_on(origin, b.local(binding, value, span, deeper)),
{
    broadcast use {
        declared_type_carries_on, stored_carries_on, bind_value_carries_on,
        declare_binding_carries_on,
    };

    reveal(BodyView::local);
}

pub(crate) broadcast proof fn if_stmt_carries_on<'a>(
    origin: BodyView<'a>,
    b: BodyView<'a>,
    branches: Seq<Branch>,
    otherwise: Option<Block>,
    span: Span,
    deeper: Deeper<'a>,
)
    requires
        carries_on(origin, b),
        steady(deeper),
    ensures
        #[trigger] carries_on(origin, b.if_stmt(branches, otherwise, span, deeper)),
{
    broadcast use {add_block_carries_on, if_branches_carries_on, block_carries_on, join_carries_on};

    reveal(BodyView::if_stmt);
}

pub(crate) broadcast proof fn if_branches_carries_on<'a>(
    origin: BodyView<'a>,
    b: BodyView<'a>,
    branches: Seq<Branch>,
    span: Span,
    deeper: Deeper<'a>,
    count: nat,
)
    requires
        carries_on(origin, b),
        steady(deeper),
    ensures
        #[trigger] carries_on(origin, b.if_branches(branches, span, deeper, count).0),
    decreases count,
{
    broadcast use {
        expr_carries_on, add_block_carries_on, branch_carries_on, switch_to_carries_on,
        block_carries_on, restore_carries_on,
    };

    reveal(BodyView::if_branches);
    if count > 0 {
        if_branches_carries_on(origin, b, branches, span, deeper, (count - 1) as nat);
    }
}

pub(crate) broadcast proof fn while_stmt_carries_on<'a>(
    origin: BodyView<'a>,
    b: BodyView<'a>,
    label: Option<Seq<char>>,
    condition: Expr,
    body: Block,
    span: Span,
    deeper: Deeper<'a>,
)
    requires
        carries_on(origin, b),
        steady(deeper),
    ensures
        #[trigger] carries_on(origin, b.while_stmt(label, condition, body, span, deeper)),
{
    broadcast use {
        add_block_carries_on, jump_to_carries_on, switch_to_carries_on, add_params_carries_on,
        bind_params_carries_on, expr_carries_on, terminate_carries_on, restore_carries_on,
        push_loop_carries_on, block_carries_on, pop_loop_carries_on,
    };

    reveal(BodyView::while_stmt);
}

pub(crate) broadcast proof fn repeat_stmt_carries_on<'a>(
    origin: BodyView<'a>,
    b: BodyView<'a>,
    label: Option<Seq<char>>,
    body: Block,
    until: Expr,
    span: Span,
    deeper: Deeper<'a>,
)
    requires
        carries_on(origin, b),
        steady(deeper),
    ensures
        #[trigger] carries_on(origin, b.repeat_stmt(label, body, until, span, deeper)),
{
    broadcast use {
        add_block_carries_on, jump_to_carries_on, add_params_carries_on, switch_to_carries_on,
        bind_params_carries_on, open_carries_on, push_loop_carries_on, stmts_carries_on,
        expr_carries_on, unwind_carries_on, terminate_carries_on, pop_loop_carries_on,
        drop_scope_carries_on, restore_carries_on,
    };

    reveal(BodyView::repeat_stmt);
}

pub(crate) broadcast proof fn try_stmt_carries_on<'a>(
    origin: BodyView<'a>,
    b: BodyView<'a>,
    body: Block,
    catches: Seq<CatchClause>,
    finally: Option<Block>,
    span: Span,
    deeper: Deeper<'a>,
)
    requires
        carries_on(origin, b),
        steady(deeper),
    ensures
        #[trigger] carries_on(origin, b.try_stmt(body, catches, finally, span, deeper)),
{
    broadcast use {
        add_block_carries_on, add_block_param_carries_on, add_params_carries_on, open_carries_on,
        defer_carries_on, push_handler_carries_on, block_carries_on, pop_handler_carries_on,
        switch_to_carries_on, restore_carries_on, bind_thrown_carries_on, catch_clauses_carries_on,
        raise_carries_on, join_carries_on, close_carries_on,
    };

    reveal(BodyView::try_stmt);
}

pub(crate) broadcast proof fn catch_clauses_carries_on<'a>(
    origin: BodyView<'a>,
    b: BodyView<'a>,
    thrown: Value,
    catches: Seq<CatchClause>,
    deeper: Deeper<'a>,
    count: nat,
)
    requires
        carries_on(origin, b),
        steady(deeper),
    ensures
        #[trigger] carries_on(origin, b.catch_clauses(thrown, catches, deeper, count).0),
    decreases count,
{
    broadcast use {
        add_block_carries_on, catch_carries_on, open_carries_on, bind_name_carries_on,
        stmts_carries_on, close_carries_on, restore_carries_on, switch_to_carries_on,
        terminate_carries_on,
    };

    reveal(BodyView::catch_clauses);
    if count > 0 {
        catch_clauses_carries_on(origin, b, thrown, catches, deeper, (count - 1) as nat);
    }
}

pub(crate) broadcast proof fn catch_carries_on<'a>(
    origin: BodyView<'a>,
    b: BodyView<'a>,
    thrown: Value,
    clause: CatchClause,
    next: BlockId,
)
    requires
        carries_on(origin, b),
    ensures
        #[trigger] carries_on(origin, b.catch(thrown, clause, next).0),
{
    broadcast use {
        recorded_carries_on, emit_carries_on, add_block_carries_on, branch_carries_on,
        switch_to_carries_on,
    };

    reveal(BodyView::catch);
}

pub(crate) broadcast proof fn bind_thrown_carries_on<'a>(
    origin: BodyView<'a>,
    b: BodyView<'a>,
    block: BlockId,
    carried: Seq<u32>,
)
    requires
        carries_on(origin, b),
    ensures
        #[trigger] carries_on(origin, b.bind_thrown(block, carried)),
{
    broadcast use set_defs_carries_on;

    reveal(BodyView::bind_thrown);
}

pub(crate) broadcast proof fn assign_carries_on<'a>(
    origin: BodyView<'a>,
    b: BodyView<'a>,
    target: Expr,
    op: Option<AstBinary>,
    value: Expr,
    span: Span,
    deeper: Deeper<'a>,
)
    requires
        carries_on(origin, b),
        steady(deeper),
    ensures
        #[trigger] carries_on(origin, b.assign(target, op, value, span, deeper)),
{
    broadcast use {
        gap_carries_on, read_var_carries_on, written_into_carries_on, write_var_carries_on,
        assign_field_carries_on, assign_index_carries_on,
    };

    reveal(BodyView::assign);
}

pub(crate) broadcast proof fn assign_field_carries_on<'a>(
    origin: BodyView<'a>,
    b: BodyView<'a>,
    receiver: Expr,
    name: Seq<char>,
    op: Option<AstBinary>,
    value: Expr,
    target: Span,
    span: Span,
    deeper: Deeper<'a>,
)
    requires
        carries_on(origin, b),
        steady(deeper),
    ensures
        #[trigger] carries_on(
            origin,
            b.assign_field(receiver, name, op, value, target, span, deeper),
        ),
{
    broadcast use {
        expr_carries_on, settled_carries_on, write_property_carries_on, gap_carries_on,
        emit_carries_on, written_into_carries_on, emit_void_carries_on,
    };

    reveal(BodyView::assign_field);
}

pub(crate) broadcast proof fn assign_index_carries_on<'a>(
    origin: BodyView<'a>,
    b: BodyView<'a>,
    receiver: Expr,
    index: Expr,
    op: Option<AstBinary>,
    value: Expr,
    target: Span,
    span: Span,
    deeper: Deeper<'a>,
)
    requires
        carries_on(origin, b),
        steady(deeper),
    ensures
        #[trigger] carries_on(
            origin,
            b.assign_index(receiver, index, op, value, target, span, deeper),
        ),
{
    broadcast use {
        expr_carries_on, settled_carries_on, gap_carries_on, emit_carries_on,
        written_into_carries_on, emit_void_carries_on,
    };

    reveal(BodyView::assign_index);
}

pub(crate) broadcast proof fn write_property_carries_on<'a>(
    origin: BodyView<'a>,
    b: BodyView<'a>,
    object: Value,
    held: TyView,
    name: Seq<char>,
    op: Option<AstBinary>,
    value: Expr,
    target: Span,
    span: Span,
    deeper: Deeper<'a>,
)
    requires
        carries_on(origin, b),
        steady(deeper),
    ensures
        #[trigger] carries_on(
            origin,
            b.write_property(object, held, name, op, value, target, span, deeper),
        ),
{
    broadcast use {gap_carries_on, emit_carries_on, written_into_carries_on, emit_void_carries_on};

    reveal(BodyView::write_property);
}

pub(crate) broadcast proof fn written_into_carries_on<'a>(
    origin: BodyView<'a>,
    b: BodyView<'a>,
    held: Option<Value>,
    wanted: TyView,
    op: Option<AstBinary>,
    value: Expr,
    target: Span,
    span: Span,
    deeper: Deeper<'a>,
)
    requires
        carries_on(origin, b),
        steady(deeper),
    ensures
        #[trigger] carries_on(
            origin,
            b.written_into(held, wanted, op, value, target, span, deeper).0,
        ),
{
    broadcast use {
        call_declared_carries_on, stored_carries_on, emit_carries_on, missing_carries_on,
    };

    reveal(BodyView::written_into);
}

/// Whether nothing was made a closure from one body to another.
#[verifier::opaque]
pub open spec fn builds_no_closure(before: BodyView, after: BodyView) -> bool {
    &&& after.made == before.made
    &&& after.next_function == before.next_function
}

pub(crate) broadcast proof fn add_block_builds_none<'a>(
    origin: BodyView<'a>,
    b: BodyView<'a>,
    span: Span,
)
    requires
        builds_no_closure(origin, b),
    ensures
        #[trigger] builds_no_closure(origin, b.add_block(span).0),
{
    reveal(builds_no_closure);
    reveal(BodyView::gap);
    reveal(BodyView::add_block);
}

pub(crate) broadcast proof fn switch_to_builds_none<'a>(
    origin: BodyView<'a>,
    b: BodyView<'a>,
    block: BlockId,
)
    requires
        builds_no_closure(origin, b),
    ensures
        #[trigger] builds_no_closure(origin, b.switch_to(block)),
{
    reveal(builds_no_closure);
    reveal(BodyView::switch_to);
}

pub(crate) broadcast proof fn terminate_builds_none<'a>(
    origin: BodyView<'a>,
    b: BodyView<'a>,
    term: TerminatorView,
)
    requires
        builds_no_closure(origin, b),
    ensures
        #[trigger] builds_no_closure(origin, b.terminate(term)),
{
    reveal(builds_no_closure);
    reveal(BodyView::terminate);
}

pub(crate) broadcast proof fn gap_builds_none<'a>(
    origin: BodyView<'a>,
    b: BodyView<'a>,
    span: Span,
    what: Seq<char>,
)
    requires
        builds_no_closure(origin, b),
    ensures
        #[trigger] builds_no_closure(origin, b.gap(span, what)),
{
    reveal(builds_no_closure);
    reveal(BodyView::gap);
}

pub(crate) broadcast proof fn emit_builds_none<'a>(
    origin: BodyView<'a>,
    b: BodyView<'a>,
    kind: InstKindView,
    ty: TyView,
    span: Span,
)
    requires
        builds_no_closure(origin, b),
    ensures
        #[trigger] builds_no_closure(origin, b.emit(kind, ty, span).0),
{
    reveal(builds_no_closure);
    reveal(BodyView::gap);
    reveal(BodyView::emit);
}

pub(crate) broadcast proof fn emit_void_builds_none<'a>(
    origin: BodyView<'a>,
    b: BodyView<'a>,
    kind: InstKindView,
    span: Span,
)
    requires
        builds_no_closure(origin, b),
    ensures
        #[trigger] builds_no_closure(origin, b.emit_void(kind, span)),
{
    reveal(builds_no_closure);
    reveal(BodyView::emit_void);
}

pub(crate) broadcast proof fn add_block_param_builds_none<'a>(
    origin: BodyView<'a>,
    b: BodyView<'a>,
    block: BlockId,
    ty: TyView,
    span: Span,
)
    requires
        builds_no_closure(origin, b),
    ensures
        #[trigger] builds_no_closure(origin, b.add_block_param(block, ty, span).0),
{
    reveal(builds_no_closure);
    reveal(BodyView::gap);
    reveal(BodyView::add_block_param);
}

pub(crate) broadcast proof fn derive_builds_none<'a>(
    origin: BodyView<'a>,
    b: BodyView<'a>,
    member: Seq<char>,
    owner: TypeId,
    span: Span,
)
    requires
        builds_no_closure(origin, b),
    ensures
        #[trigger] builds_no_closure(origin, b.derive(member, owner, span).0),
{
    broadcast use {
        struct_eq_builds_none, struct_hash_builds_none, struct_display_builds_none,
        underivable_builds_none, enum_eq_builds_none, enum_hash_builds_none, enum_display_builds_none,
    };

    reveal(BodyView::derive);
}

pub(crate) broadcast proof fn struct_eq_builds_none<'a>(
    origin: BodyView<'a>,
    b: BodyView<'a>,
    fields: Seq<FieldView>,
    span: Span,
)
    requires
        builds_no_closure(origin, b),
    ensures
        #[trigger] builds_no_closure(origin, b.struct_eq(fields, span).0),
{
    broadcast use {
        refuse_builds_none, add_block_builds_none, eq_fields_builds_none, answer_builds_none,
        switch_to_builds_none,
    };

    reveal(BodyView::struct_eq);
}

pub(crate) broadcast proof fn struct_hash_builds_none<'a>(
    origin: BodyView<'a>,
    b: BodyView<'a>,
    fields: Seq<FieldView>,
    span: Span,
)
    requires
        builds_no_closure(origin, b),
    ensures
        #[trigger] builds_no_closure(origin, b.struct_hash(fields, span).0),
{
    broadcast use {
        refuse_builds_none, hash_start_builds_none, hash_fields_builds_none, terminate_builds_none,
    };

    reveal(BodyView::struct_hash);
}

pub(crate) broadcast proof fn struct_display_builds_none<'a>(
    origin: BodyView<'a>,
    b: BodyView<'a>,
    owner: TypeId,
    fields: Seq<FieldView>,
    span: Span,
)
    requires
        builds_no_closure(origin, b),
    ensures
        #[trigger] builds_no_closure(origin, b.struct_display(owner, fields, span).0),
{
    broadcast use {
        refuse_builds_none, string_builds_none, display_fields_builds_none, append_text_builds_none,
        terminate_builds_none,
    };

    reveal(BodyView::struct_display);
}

pub(crate) broadcast proof fn underivable_builds_none<'a>(
    origin: BodyView<'a>,
    b: BodyView<'a>,
    member: Seq<char>,
    span: Span,
)
    requires
        builds_no_closure(origin, b),
    ensures
        #[trigger] builds_no_closure(origin, b.underivable(member, span).0),
{
    broadcast use gap_builds_none;

    reveal(BodyView::underivable);
}

#[verifier::rlimit(60)]
pub(crate) broadcast proof fn enum_eq_builds_none<'a>(
    origin: BodyView<'a>,
    b: BodyView<'a>,
    variants: Seq<VariantView>,
    span: Span,
)
    requires
        builds_no_closure(origin, b),
    ensures
        #[trigger] builds_no_closure(origin, b.enum_eq(variants, span).0),
{
    broadcast use {
        refuse_builds_none, emit_builds_none, add_block_builds_none, switch_to_builds_none,
        answer_builds_none, branch_builds_none, eq_variants_builds_none, choose_variant_builds_none,
    };

    reveal(BodyView::enum_eq);
}

pub(crate) broadcast proof fn enum_hash_builds_none<'a>(
    origin: BodyView<'a>,
    b: BodyView<'a>,
    variants: Seq<VariantView>,
    span: Span,
)
    requires
        builds_no_closure(origin, b),
    ensures
        #[trigger] builds_no_closure(origin, b.enum_hash(variants, span).0),
{
    broadcast use {
        refuse_builds_none, emit_builds_none, hash_start_builds_none, combine_builds_none,
        hash_variants_builds_none, choose_variant_builds_none,
    };

    reveal(BodyView::enum_hash);
}

pub(crate) broadcast proof fn enum_display_builds_none<'a>(
    origin: BodyView<'a>,
    b: BodyView<'a>,
    owner: TypeId,
    variants: Seq<VariantView>,
    span: Span,
)
    requires
        builds_no_closure(origin, b),
    ensures
        #[trigger] builds_no_closure(origin, b.enum_display(owner, variants, span).0),
{
    broadcast use {
        refuse_builds_none, emit_builds_none, display_variants_builds_none, choose_variant_builds_none,
    };

    reveal(BodyView::enum_display);
}

pub(crate) broadcast proof fn refuse_builds_none<'a>(
    origin: BodyView<'a>,
    b: BodyView<'a>,
    span: Span,
    what: Seq<char>,
)
    requires
        builds_no_closure(origin, b),
    ensures
        #[trigger] builds_no_closure(origin, b.refuse(span, what).0),
{
    broadcast use gap_builds_none;

    reveal(BodyView::refuse);
}

pub(crate) broadcast proof fn eq_fields_builds_none<'a>(
    origin: BodyView<'a>,
    b: BodyView<'a>,
    left: Value,
    right: Value,
    variant: Option<u32>,
    fields: Seq<FieldView>,
    differs: BlockId,
    span: Span,
    count: nat,
)
    requires
        builds_no_closure(origin, b),
    ensures
        #[trigger] builds_no_closure(
            origin,
            b.eq_fields(left, right, variant, fields, differs, span, count),
        ),
    decreases count,
{
    broadcast use {
        emit_builds_none, same_builds_none, add_block_builds_none, branch_builds_none,
        switch_to_builds_none,
    };

    reveal(BodyView::eq_fields);
    if count > 0 {
        eq_fields_builds_none(
            origin,
            b,
            left,
            right,
            variant,
            fields,
            differs,
            span,
            (count - 1) as nat,
        );
    }
}

pub(crate) broadcast proof fn answer_builds_none<'a>(
    origin: BodyView<'a>,
    b: BodyView<'a>,
    held: bool,
    span: Span,
)
    requires
        builds_no_closure(origin, b),
    ensures
        #[trigger] builds_no_closure(origin, b.answer(held, span)),
{
    broadcast use {emit_builds_none, terminate_builds_none};

    reveal(BodyView::answer);
}

pub(crate) broadcast proof fn hash_start_builds_none<'a>(
    origin: BodyView<'a>,
    b: BodyView<'a>,
    span: Span,
)
    requires
        builds_no_closure(origin, b),
    ensures
        #[trigger] builds_no_closure(origin, b.hash_start(span).0),
{
    broadcast use emit_builds_none;

    reveal(BodyView::hash_start);
}

pub(crate) broadcast proof fn hash_fields_builds_none<'a>(
    origin: BodyView<'a>,
    b: BodyView<'a>,
    first: Value,
    value: Value,
    variant: Option<u32>,
    fields: Seq<FieldView>,
    span: Span,
    count: nat,
)
    requires
        builds_no_closure(origin, b),
    ensures
        #[trigger] builds_no_closure(origin, b.hash_fields(first, value, variant, fields, span, count).0),
    decreases count,
{
    broadcast use {emit_builds_none, hash_builds_none, combine_builds_none};

    reveal(BodyView::hash_fields);
    if count > 0 {
        hash_fields_builds_none(origin, b, first, value, variant, fields, span, (count - 1) as nat);
    }
}

pub(crate) broadcast proof fn string_builds_none<'a>(
    origin: BodyView<'a>,
    b: BodyView<'a>,
    text: Seq<char>,
    span: Span,
)
    requires
        builds_no_closure(origin, b),
    ensures
        #[trigger] builds_no_closure(origin, b.string(text, span).0),
{
    broadcast use emit_builds_none;

    reveal(BodyView::string);
}

pub(crate) broadcast proof fn display_fields_builds_none<'a>(
    origin: BodyView<'a>,
    b: BodyView<'a>,
    first: Value,
    value: Value,
    variant: Option<u32>,
    named: bool,
    fields: Seq<FieldView>,
    span: Span,
    count: nat,
)
    requires
        builds_no_closure(origin, b),
    ensures
        #[trigger] builds_no_closure(
            origin,
            b.display_fields(first, value, variant, named, fields, span, count).0,
        ),
    decreases count,
{
    broadcast use {
        append_text_builds_none, emit_builds_none, display_derived_builds_none,
        concat_values_builds_none,
    };

    reveal(BodyView::display_fields);
    if count > 0 {
        display_fields_builds_none(
            origin,
            b,
            first,
            value,
            variant,
            named,
            fields,
            span,
            (count - 1) as nat,
        );
    }
}

pub(crate) broadcast proof fn append_text_builds_none<'a>(
    origin: BodyView<'a>,
    b: BodyView<'a>,
    left: Value,
    text: Seq<char>,
    span: Span,
)
    requires
        builds_no_closure(origin, b),
    ensures
        #[trigger] builds_no_closure(origin, b.append_text(left, text, span).0),
{
    broadcast use {string_builds_none, concat_values_builds_none};

    reveal(BodyView::append_text);
}

pub(crate) broadcast proof fn branch_builds_none<'a>(
    origin: BodyView<'a>,
    b: BodyView<'a>,
    condition: Value,
    then: BlockId,
    otherwise: BlockId,
)
    requires
        builds_no_closure(origin, b),
    ensures
        #[trigger] builds_no_closure(origin, b.branch(condition, then, otherwise)),
{
    broadcast use terminate_builds_none;

    reveal(BodyView::branch);
}

pub(crate) broadcast proof fn eq_variants_builds_none<'a>(
    origin: BodyView<'a>,
    b: BodyView<'a>,
    left: Value,
    right: Value,
    variants: Seq<VariantView>,
    differs: BlockId,
    span: Span,
    count: nat,
)
    requires
        builds_no_closure(origin, b),
    ensures
        #[trigger] builds_no_closure(origin, b.eq_variants(left, right, variants, differs, span, count).0),
    decreases count,
{
    broadcast use {
        add_block_builds_none, switch_to_builds_none, eq_fields_builds_none, answer_builds_none,
    };

    reveal(BodyView::eq_variants);
    if count > 0 {
        eq_variants_builds_none(origin, b, left, right, variants, differs, span, (count - 1) as nat);
    }
}

pub(crate) broadcast proof fn choose_variant_builds_none<'a>(
    origin: BodyView<'a>,
    b: BodyView<'a>,
    tag: Value,
    blocks: Seq<BlockId>,
    from: BlockId,
    span: Span,
)
    requires
        builds_no_closure(origin, b),
    ensures
        #[trigger] builds_no_closure(origin, b.choose_variant(tag, blocks, from, span)),
{
    broadcast use {add_block_builds_none, switch_to_builds_none, terminate_builds_none};

    reveal(BodyView::choose_variant);
}

pub(crate) broadcast proof fn combine_builds_none<'a>(
    origin: BodyView<'a>,
    b: BodyView<'a>,
    state: Value,
    value: Value,
    span: Span,
)
    requires
        builds_no_closure(origin, b),
    ensures
        #[trigger] builds_no_closure(origin, b.combine(state, value, span).0),
{
    broadcast use emit_builds_none;

    reveal(BodyView::combine);
}

pub(crate) broadcast proof fn hash_variants_builds_none<'a>(
    origin: BodyView<'a>,
    b: BodyView<'a>,
    state: Value,
    value: Value,
    variants: Seq<VariantView>,
    span: Span,
    count: nat,
)
    requires
        builds_no_closure(origin, b),
    ensures
        #[trigger] builds_no_closure(origin, b.hash_variants(state, value, variants, span, count).0),
    decreases count,
{
    broadcast use {
        add_block_builds_none, switch_to_builds_none, hash_fields_builds_none, terminate_builds_none,
    };

    reveal(BodyView::hash_variants);
    if count > 0 {
        hash_variants_builds_none(origin, b, state, value, variants, span, (count - 1) as nat);
    }
}

pub(crate) broadcast proof fn display_variants_builds_none<'a>(
    origin: BodyView<'a>,
    b: BodyView<'a>,
    name: Seq<char>,
    value: Value,
    variants: Seq<VariantView>,
    span: Span,
    count: nat,
)
    requires
        builds_no_closure(origin, b),
    ensures
        #[trigger] builds_no_closure(origin, b.display_variants(name, value, variants, span, count).0),
    decreases count,
{
    broadcast use {
        add_block_builds_none, switch_to_builds_none, string_builds_none, display_fields_builds_none,
        append_text_builds_none, terminate_builds_none,
    };

    reveal(BodyView::display_variants);
    if count > 0 {
        display_variants_builds_none(origin, b, name, value, variants, span, (count - 1) as nat);
    }
}

pub(crate) broadcast proof fn same_builds_none<'a>(
    origin: BodyView<'a>,
    b: BodyView<'a>,
    left: Value,
    right: Value,
    ty: TyView,
    span: Span,
)
    requires
        builds_no_closure(origin, b),
    ensures
        #[trigger] builds_no_closure(origin, b.same(left, right, ty, span).0),
{
    broadcast use emit_builds_none;

    reveal(BodyView::same);
}

pub(crate) broadcast proof fn hash_builds_none<'a>(
    origin: BodyView<'a>,
    b: BodyView<'a>,
    value: Value,
    ty: TyView,
    span: Span,
)
    requires
        builds_no_closure(origin, b),
    ensures
        #[trigger] builds_no_closure(origin, b.hash(value, ty, span).0),
{
    broadcast use emit_builds_none;

    reveal(BodyView::hash);
}

pub(crate) broadcast proof fn concat_values_builds_none<'a>(
    origin: BodyView<'a>,
    b: BodyView<'a>,
    left: Value,
    right: Value,
    span: Span,
)
    requires
        builds_no_closure(origin, b),
    ensures
        #[trigger] builds_no_closure(origin, b.concat_values(left, right, span).0),
{
    broadcast use emit_builds_none;

    reveal(BodyView::concat_values);
}

pub(crate) broadcast proof fn display_bool_builds_none<'a>(
    origin: BodyView<'a>,
    b: BodyView<'a>,
    value: Value,
    span: Span,
)
    requires
        builds_no_closure(origin, b),
    ensures
        #[trigger] builds_no_closure(origin, b.display_bool(value, span).0),
{
    broadcast use {
        add_block_builds_none, branch_builds_none, switch_to_builds_none, string_builds_none,
        jump_with_builds_none, add_block_param_builds_none,
    };

    reveal(BodyView::display_bool);
}

pub(crate) broadcast proof fn split_optional_builds_none<'a>(
    origin: BodyView<'a>,
    b: BodyView<'a>,
    value: Value,
    span: Span,
)
    requires
        builds_no_closure(origin, b),
    ensures
        #[trigger] builds_no_closure(origin, b.split_optional(value, span).0),
{
    broadcast use {add_block_builds_none, emit_builds_none, branch_builds_none};

    reveal(BodyView::split_optional);
}

pub(crate) broadcast proof fn finish_optional_builds_none<'a>(
    origin: BodyView<'a>,
    b: BodyView<'a>,
    text: Value,
    ways: Ways,
    span: Span,
)
    requires
        builds_no_closure(origin, b),
    ensures
        #[trigger] builds_no_closure(origin, b.finish_optional(text, ways, span).0),
{
    broadcast use {
        jump_with_builds_none, switch_to_builds_none, string_builds_none, add_block_param_builds_none,
    };

    reveal(BodyView::finish_optional);
}

pub(crate) broadcast proof fn jump_with_builds_none<'a>(
    origin: BodyView<'a>,
    b: BodyView<'a>,
    block: BlockId,
    value: Value,
)
    requires
        builds_no_closure(origin, b),
    ensures
        #[trigger] builds_no_closure(origin, b.jump_with(block, value)),
{
    broadcast use terminate_builds_none;

    reveal(BodyView::jump_with);
}

pub(crate) broadcast proof fn display_derived_builds_none<'a>(
    origin: BodyView<'a>,
    b: BodyView<'a>,
    value: Value,
    ty: TyView,
    span: Span,
)
    requires
        builds_no_closure(origin, b),
    ensures
        #[trigger] builds_no_closure(origin, b.display_derived(value, ty, span).0),
    decreases ty,
{
    broadcast use {
        emit_builds_none, display_bool_builds_none, split_optional_builds_none, switch_to_builds_none,
        finish_optional_builds_none,
    };

    reveal(BodyView::display_derived);
    match ty {
        TyView::Optional(inner) => {
            let (split, ways) = b.split_optional(value, span);
            let (there, held) = split.switch_to(ways.found).emit(
                InstKindView::Unwrap { value },
                *inner,
                span,
            );
            assert(builds_no_closure(origin, there));
            display_derived_builds_none(origin, there, held, *inner, span);
        },
        _ => {},
    }
}

/// Writing a derived member builds no closure.
pub proof fn a_derived_member_builds_no_closure<'a>(
    b: BodyView<'a>,
    member: Seq<char>,
    owner: TypeId,
    span: Span,
)
    ensures
        b.derive(member, owner, span).0.made == b.made,
        b.derive(member, owner, span).0.next_function == b.next_function,
{
    assert(builds_no_closure(b, b)) by {
        reveal(builds_no_closure);
    }
    derive_builds_none(b, b, member, owner, span);
    reveal(builds_no_closure);
}

/// What is nested inside something carries on from it, however deep.
pub proof fn nested_is_steady(fuel: nat)
    ensures
        steady(deeper(fuel)),
    decreases fuel,
{
    broadcast use {
        gap_carries_on, missing_carries_on, expr_within_carries_on, block_within_carries_on,
        stmts_within_carries_on, test_within_carries_on, bind_within_carries_on,
    };

    reveal(steady);
    if fuel > 0 {
        nested_is_steady((fuel - 1) as nat);
    }
}

/// Lowering a block into a body keeps what the body is of and everything already
/// written, reports only more, and gives the closures it builds the ids that are
/// next, in the order they took them.
pub proof fn a_lowered_block_carries_on<'a>(
    b: BodyView<'a>,
    bindings: Seq<Bound<'a>>,
    block: Block,
    fuel: nat,
)
    ensures
        carries_on(b, b.lower_block(bindings, block, deeper(fuel))),
{
    nested_is_steady(fuel);
    still(b);
    lower_block_carries_on(b, b, bindings, block, deeper(fuel));
}

/// Writing a derived member keeps the same.
pub proof fn a_derived_member_carries_on<'a>(
    b: BodyView<'a>,
    member: Seq<char>,
    owner: TypeId,
    span: Span,
)
    ensures
        carries_on(b, b.derive(member, owner, span).0),
{
    still(b);
    derive_carries_on(b, b, member, owner, span);
}

} // verus!
