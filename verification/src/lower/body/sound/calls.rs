//! That what lowering a body names is there: calls and closures.

use vstd::prelude::*;

use crate::ast::{Block, Expr, FunctionBody, Param};
use crate::inst::{InstKindView, MethodId, Value};
use crate::program::{FuncId, FunctionView, id_limit};
use crate::lower::names::{Seeking, in_body};
use crate::span::Span;
use crate::ty::TyView;

use super::super::kinds::{function_of_view, thrown_or_view};
use super::super::lookups::CapturesView;
use super::super::calls::{captured_types, closure_name};
use super::super::deeper::{Deeper, deeper};
use super::super::given::{Bound, Given, bound_params_view};
use super::super::{Body, BodyView, CalleeView};
use super::builtins::{builtin_fits, builtin_gives, memory_method_fits, memory_method_gives};
use super::construct::{construct_fits, construct_gives};
use super::leaves::{
    bind_name_fits, completed_result_fits, completed_result_gives, completed_task_fits,
    completed_task_gives, missing_fits, missing_gives, returned_fits, returned_gives, unit_fits,
    unit_gives,
};
use super::{
    Thing, bind_value_fits, block_fits, callable, calls_fit, emit_fits, emit_gives, expr_fits,
    expr_gives, fits, nameable, nearly_well_formed, open_fits, recorded_fits, sturdy,
    terminate_fits, things,
};
use super::scopes::{
    caught_or_raised_fits, caught_or_raised_gives, close_fits, ret_fits, stored_fits, stored_gives,
};

verus! {

pub(crate) broadcast proof fn call_fits<'a>(
    b: BodyView<'a>,
    callee: Expr,
    method: Option<Seq<char>>,
    args: Seq<Given<'a>>,
    span: Span,
    deeper: Deeper<'a>,
    thing: Thing,
)
    requires
        fits(b, Thing::Body),
        sturdy(deeper),
        fits(b, thing),
    ensures
        #[trigger] fits(b.call(callee, method, args, span, deeper).0, thing),
{
    broadcast use {
        things, builtin_fits, builtin_gives, construction_fits, construct_fits, construct_gives,
        call_resolved_fits, call_resolved_gives,
    };

    reveal(BodyView::call);
}

pub(crate) broadcast proof fn call_gives<'a>(
    b: BodyView<'a>,
    callee: Expr,
    method: Option<Seq<char>>,
    args: Seq<Given<'a>>,
    span: Span,
    deeper: Deeper<'a>,
)
    requires
        fits(b, Thing::Body),
        sturdy(deeper),
    ensures
        #[trigger] fits(
            b.call(callee, method, args, span, deeper).0,
            Thing::Value(b.call(callee, method, args, span, deeper).1),
        ),
{
    broadcast use {
        things, builtin_fits, builtin_gives, construction_fits, construct_fits, construct_gives,
        call_resolved_fits, call_resolved_gives,
    };

    reveal(BodyView::call);
}

pub(crate) broadcast proof fn construction_fits<'a>(
    b: BodyView<'a>,
    callee: Expr,
    span: Span,
    thing: Thing,
)
    requires
        fits(b, Thing::Body),
        fits(b, thing),
    ensures
        #[trigger] fits(b.construction(callee, span).0, thing),
{
    broadcast use {things, recorded_fits, variant_called_fits};

    reveal(BodyView::construction);
}

pub(crate) broadcast proof fn variant_called_fits<'a>(
    b: BodyView<'a>,
    name: Seq<char>,
    span: Span,
    thing: Thing,
)
    requires
        fits(b, Thing::Body),
        fits(b, thing),
    ensures
        #[trigger] fits(b.variant_called(name, span).0, thing),
{
    broadcast use {things, recorded_fits};

    reveal(BodyView::variant_called);
}

pub(crate) broadcast proof fn call_resolved_fits<'a>(
    b: BodyView<'a>,
    callee: Expr,
    method: Option<Seq<char>>,
    args: Seq<Given<'a>>,
    span: Span,
    deeper: Deeper<'a>,
    thing: Thing,
)
    requires
        fits(b, Thing::Body),
        sturdy(deeper),
        fits(b, thing),
    ensures
        #[trigger] fits(b.call_resolved(callee, method, args, span, deeper).0, thing),
{
    broadcast use {
        things, through_fits, through_gives, memory_method_fits, memory_method_gives, missing_fits,
        missing_gives, expr_fits, expr_gives, call_declared_fits, call_declared_gives,
    };

    reveal(BodyView::call_resolved);
}

pub(crate) broadcast proof fn call_resolved_gives<'a>(
    b: BodyView<'a>,
    callee: Expr,
    method: Option<Seq<char>>,
    args: Seq<Given<'a>>,
    span: Span,
    deeper: Deeper<'a>,
)
    requires
        fits(b, Thing::Body),
        sturdy(deeper),
    ensures
        #[trigger] fits(
            b.call_resolved(callee, method, args, span, deeper).0,
            Thing::Value(b.call_resolved(callee, method, args, span, deeper).1),
        ),
{
    broadcast use {
        things, through_fits, through_gives, memory_method_fits, memory_method_gives, missing_fits,
        missing_gives, expr_fits, expr_gives, call_declared_fits, call_declared_gives,
    };

    reveal(BodyView::call_resolved);
}

pub(crate) broadcast proof fn call_declared_fits<'a>(
    b: BodyView<'a>,
    declaration: Span,
    receiver: Option<Value>,
    args: Seq<Given<'a>>,
    span: Span,
    deeper: Deeper<'a>,
    thing: Thing,
)
    requires
        fits(b, Thing::Body),
        sturdy(deeper),
        fits(b, Thing::Maybe(receiver)),
        fits(b, thing),
    ensures
        #[trigger] fits(b.call_declared(declaration, receiver, args, span, deeper).0, thing),
{
    broadcast use {
        things, dispatch_fits, dispatch_gives, missing_fits, missing_gives, call_reached_fits,
        call_reached_gives,
    };

    reveal(BodyView::call_declared);
}

pub(crate) broadcast proof fn call_declared_gives<'a>(
    b: BodyView<'a>,
    declaration: Span,
    receiver: Option<Value>,
    args: Seq<Given<'a>>,
    span: Span,
    deeper: Deeper<'a>,
)
    requires
        fits(b, Thing::Body),
        sturdy(deeper),
        fits(b, Thing::Maybe(receiver)),
    ensures
        #[trigger] fits(
            b.call_declared(declaration, receiver, args, span, deeper).0,
            Thing::Value(b.call_declared(declaration, receiver, args, span, deeper).1),
        ),
{
    broadcast use {
        things, dispatch_fits, dispatch_gives, missing_fits, missing_gives, call_reached_fits,
        call_reached_gives,
    };

    reveal(BodyView::call_declared);
}

pub(crate) broadcast proof fn call_reached_fits<'a>(
    b: BodyView<'a>,
    reached: CalleeView<'a>,
    receiver: Option<Value>,
    args: Seq<Given<'a>>,
    span: Span,
    deeper: Deeper<'a>,
    thing: Thing,
)
    requires
        fits(b, Thing::Body),
        sturdy(deeper),
        fits(b, Thing::Func(reached.id)),
        fits(b, Thing::Maybe(receiver)),
        fits(b, thing),
    ensures
        #[trigger] fits(b.call_reached(reached, receiver, args, span, deeper).0, thing),
{
    broadcast use {
        things, missing_fits, missing_gives, given_values_fits, given_values_gives, supply_fits,
        supply_gives, emit_fits, emit_gives, finish_call_fits, finish_call_gives,
    };

    reveal(BodyView::call_reached);
}

pub(crate) broadcast proof fn call_reached_gives<'a>(
    b: BodyView<'a>,
    reached: CalleeView<'a>,
    receiver: Option<Value>,
    args: Seq<Given<'a>>,
    span: Span,
    deeper: Deeper<'a>,
)
    requires
        fits(b, Thing::Body),
        sturdy(deeper),
        fits(b, Thing::Func(reached.id)),
        fits(b, Thing::Maybe(receiver)),
    ensures
        #[trigger] fits(
            b.call_reached(reached, receiver, args, span, deeper).0,
            Thing::Value(b.call_reached(reached, receiver, args, span, deeper).1),
        ),
{
    broadcast use {
        things, missing_fits, missing_gives, given_values_fits, given_values_gives, supply_fits,
        supply_gives, emit_fits, emit_gives, finish_call_fits, finish_call_gives,
    };

    reveal(BodyView::call_reached);
}

pub(crate) broadcast proof fn finish_call_fits<'a>(
    b: BodyView<'a>,
    kind: InstKindView,
    throws: bool,
    asynchronous: bool,
    span: Span,
    deeper: Deeper<'a>,
    thing: Thing,
)
    requires
        fits(b, Thing::Body),
        sturdy(deeper),
        fits(b, Thing::Kind(kind)),
        fits(b, thing),
    ensures
        #[trigger] fits(b.finish_call(kind, throws, asynchronous, span, deeper).0, thing),
{
    broadcast use {things, recorded_fits, finish_typed_fits, finish_typed_gives};

    reveal(BodyView::finish_call);
}

pub(crate) broadcast proof fn finish_call_gives<'a>(
    b: BodyView<'a>,
    kind: InstKindView,
    throws: bool,
    asynchronous: bool,
    span: Span,
    deeper: Deeper<'a>,
)
    requires
        fits(b, Thing::Body),
        sturdy(deeper),
        fits(b, Thing::Kind(kind)),
    ensures
        #[trigger] fits(
            b.finish_call(kind, throws, asynchronous, span, deeper).0,
            Thing::Value(b.finish_call(kind, throws, asynchronous, span, deeper).1),
        ),
{
    broadcast use {things, recorded_fits, finish_typed_fits, finish_typed_gives};

    reveal(BodyView::finish_call);
}

pub(crate) broadcast proof fn finish_typed_fits<'a>(
    b: BodyView<'a>,
    kind: InstKindView,
    throws: bool,
    asynchronous: bool,
    result: TyView,
    span: Span,
    deeper: Deeper<'a>,
    thing: Thing,
)
    requires
        fits(b, Thing::Body),
        sturdy(deeper),
        fits(b, Thing::Kind(kind)),
        fits(b, thing),
    ensures
        #[trigger] fits(b.finish_typed(kind, throws, asynchronous, result, span, deeper).0, thing),
{
    broadcast use {
        things, missing_fits, missing_gives, emit_fits, emit_gives, completed_task_fits,
        completed_task_gives, completed_result_fits, completed_result_gives, caught_or_raised_fits,
        caught_or_raised_gives,
    };

    reveal(BodyView::finish_typed);
}

pub(crate) broadcast proof fn finish_typed_gives<'a>(
    b: BodyView<'a>,
    kind: InstKindView,
    throws: bool,
    asynchronous: bool,
    result: TyView,
    span: Span,
    deeper: Deeper<'a>,
)
    requires
        fits(b, Thing::Body),
        sturdy(deeper),
        fits(b, Thing::Kind(kind)),
    ensures
        #[trigger] fits(
            b.finish_typed(kind, throws, asynchronous, result, span, deeper).0,
            Thing::Value(b.finish_typed(kind, throws, asynchronous, result, span, deeper).1),
        ),
{
    broadcast use {
        things, missing_fits, missing_gives, emit_fits, emit_gives, completed_task_fits,
        completed_task_gives, completed_result_fits, completed_result_gives, caught_or_raised_fits,
        caught_or_raised_gives,
    };

    reveal(BodyView::finish_typed);
}

pub(crate) broadcast proof fn given_values_fits<'a>(
    b: BodyView<'a>,
    args: Seq<Given<'a>>,
    slots: Seq<Option<usize>>,
    wanted: Seq<TyView>,
    deeper: Deeper<'a>,
    count: nat,
    thing: Thing,
)
    requires
        fits(b, Thing::Body),
        sturdy(deeper),
        count <= args.len(),
        fits(b, thing),
    ensures
        #[trigger] fits(b.given_values(args, slots, wanted, deeper, count).0, thing),
    decreases count,
{
    broadcast use {things, stored_fits, stored_gives};

    reveal(BodyView::given_values);
    if count > 0 {
        given_values_fits(b, args, slots, wanted, deeper, (count - 1) as nat, Thing::Body);
        given_values_fits(b, args, slots, wanted, deeper, (count - 1) as nat, thing);
        given_values_gives(b, args, slots, wanted, deeper, (count - 1) as nat);
    }
}

pub(crate) broadcast proof fn given_values_gives<'a>(
    b: BodyView<'a>,
    args: Seq<Given<'a>>,
    slots: Seq<Option<usize>>,
    wanted: Seq<TyView>,
    deeper: Deeper<'a>,
    count: nat,
)
    requires
        fits(b, Thing::Body),
        sturdy(deeper),
        count <= args.len(),
    ensures
        #[trigger] fits(
            b.given_values(args, slots, wanted, deeper, count).0,
            Thing::Values(b.given_values(args, slots, wanted, deeper, count).1),
        ),
    decreases count,
{
    broadcast use {things, stored_fits, stored_gives};

    reveal(BodyView::given_values);
    if count > 0 {
        given_values_fits(b, args, slots, wanted, deeper, (count - 1) as nat, Thing::Body);
        given_values_gives(b, args, slots, wanted, deeper, (count - 1) as nat);
    }
}

pub(crate) broadcast proof fn supply_fits<'a>(
    b: BodyView<'a>,
    reached: CalleeView<'a>,
    variadic: Option<usize>,
    filled: Seq<Option<Value>>,
    wanted: Seq<TyView>,
    limit: nat,
    deeper: Deeper<'a>,
    count: nat,
    thing: Thing,
)
    requires
        fits(b, Thing::Body),
        sturdy(deeper),
        fits(b, Thing::Func(reached.id)),
        fits(b, Thing::Options(filled)),
        count <= filled.len(),
        fits(b, thing),
    ensures
        #[trigger] fits(b.supply(reached, variadic, filled, wanted, limit, deeper, count).0, thing),
    decreases count,
{
    broadcast use {things, stored_fits, stored_gives};

    reveal(BodyView::supply);
    if count > 0 {
        supply_fits(
            b,
            reached,
            variadic,
            filled,
            wanted,
            limit,
            deeper,
            (count - 1) as nat,
            Thing::Body,
        );
        supply_fits(
            b,
            reached,
            variadic,
            filled,
            wanted,
            limit,
            deeper,
            (count - 1) as nat,
            Thing::Func(reached.id),
        );
        supply_fits(
            b,
            reached,
            variadic,
            filled,
            wanted,
            limit,
            deeper,
            (count - 1) as nat,
            Thing::Options(filled),
        );
        supply_fits(b, reached, variadic, filled, wanted, limit, deeper, (count - 1) as nat, thing);
        supply_gives(b, reached, variadic, filled, wanted, limit, deeper, (count - 1) as nat);
    }
}

pub(crate) broadcast proof fn supply_gives<'a>(
    b: BodyView<'a>,
    reached: CalleeView<'a>,
    variadic: Option<usize>,
    filled: Seq<Option<Value>>,
    wanted: Seq<TyView>,
    limit: nat,
    deeper: Deeper<'a>,
    count: nat,
)
    requires
        fits(b, Thing::Body),
        sturdy(deeper),
        fits(b, Thing::Func(reached.id)),
        fits(b, Thing::Options(filled)),
        count <= filled.len(),
    ensures
        #[trigger] fits(
            b.supply(reached, variadic, filled, wanted, limit, deeper, count).0,
            Thing::Values(b.supply(reached, variadic, filled, wanted, limit, deeper, count).1),
        ),
    decreases count,
{
    broadcast use {things, stored_fits, stored_gives};

    reveal(BodyView::supply);
    if count > 0 {
        supply_fits(
            b,
            reached,
            variadic,
            filled,
            wanted,
            limit,
            deeper,
            (count - 1) as nat,
            Thing::Body,
        );
        supply_fits(
            b,
            reached,
            variadic,
            filled,
            wanted,
            limit,
            deeper,
            (count - 1) as nat,
            Thing::Func(reached.id),
        );
        supply_fits(
            b,
            reached,
            variadic,
            filled,
            wanted,
            limit,
            deeper,
            (count - 1) as nat,
            Thing::Options(filled),
        );
        supply_gives(b, reached, variadic, filled, wanted, limit, deeper, (count - 1) as nat);
    }
}

pub(crate) broadcast proof fn through_fits<'a>(
    b: BodyView<'a>,
    callee: Expr,
    args: Seq<Given<'a>>,
    span: Span,
    deeper: Deeper<'a>,
    thing: Thing,
)
    requires
        fits(b, Thing::Body),
        sturdy(deeper),
        fits(b, thing),
    ensures
        #[trigger] fits(b.through(callee, args, span, deeper).0, thing),
{
    broadcast use {
        things, expr_fits, expr_gives, missing_fits, missing_gives, pass_each_fits, pass_each_gives,
        finish_typed_fits, finish_typed_gives,
    };

    reveal(BodyView::through);
}

pub(crate) broadcast proof fn through_gives<'a>(
    b: BodyView<'a>,
    callee: Expr,
    args: Seq<Given<'a>>,
    span: Span,
    deeper: Deeper<'a>,
)
    requires
        fits(b, Thing::Body),
        sturdy(deeper),
    ensures
        #[trigger] fits(
            b.through(callee, args, span, deeper).0,
            Thing::Value(b.through(callee, args, span, deeper).1),
        ),
{
    broadcast use {
        things, expr_fits, expr_gives, missing_fits, missing_gives, pass_each_fits, pass_each_gives,
        finish_typed_fits, finish_typed_gives,
    };

    reveal(BodyView::through);
}

pub(crate) broadcast proof fn pass_each_fits<'a>(
    b: BodyView<'a>,
    args: Seq<Given<'a>>,
    types: Seq<TyView>,
    deeper: Deeper<'a>,
    count: nat,
    thing: Thing,
)
    requires
        fits(b, Thing::Body),
        sturdy(deeper),
        count <= args.len(),
        fits(b, thing),
    ensures
        #[trigger] fits(b.pass_each(args, types, deeper, count).0, thing),
    decreases count,
{
    broadcast use {things, stored_fits, stored_gives};

    reveal(BodyView::pass_each);
    if count > 0 {
        pass_each_fits(b, args, types, deeper, (count - 1) as nat, Thing::Body);
        pass_each_fits(b, args, types, deeper, (count - 1) as nat, thing);
        pass_each_gives(b, args, types, deeper, (count - 1) as nat);
    }
}

pub(crate) broadcast proof fn pass_each_gives<'a>(
    b: BodyView<'a>,
    args: Seq<Given<'a>>,
    types: Seq<TyView>,
    deeper: Deeper<'a>,
    count: nat,
)
    requires
        fits(b, Thing::Body),
        sturdy(deeper),
        count <= args.len(),
    ensures
        #[trigger] fits(
            b.pass_each(args, types, deeper, count).0,
            Thing::Values(b.pass_each(args, types, deeper, count).1),
        ),
    decreases count,
{
    broadcast use {things, stored_fits, stored_gives};

    reveal(BodyView::pass_each);
    if count > 0 {
        pass_each_fits(b, args, types, deeper, (count - 1) as nat, Thing::Body);
        pass_each_gives(b, args, types, deeper, (count - 1) as nat);
    }
}

pub(crate) broadcast proof fn dispatch_fits<'a>(
    b: BodyView<'a>,
    method: MethodId,
    receiver: Option<Value>,
    args: Seq<Given<'a>>,
    span: Span,
    deeper: Deeper<'a>,
    thing: Thing,
)
    requires
        fits(b, Thing::Body),
        sturdy(deeper),
        fits(b, Thing::Maybe(receiver)),
        fits(b, thing),
    ensures
        #[trigger] fits(b.dispatch(method, receiver, args, span, deeper).0, thing),
{
    broadcast use {
        things, missing_fits, missing_gives, pass_plain_fits, pass_plain_gives, finish_call_fits,
        finish_call_gives,
    };

    reveal(BodyView::dispatch);
}

pub(crate) broadcast proof fn dispatch_gives<'a>(
    b: BodyView<'a>,
    method: MethodId,
    receiver: Option<Value>,
    args: Seq<Given<'a>>,
    span: Span,
    deeper: Deeper<'a>,
)
    requires
        fits(b, Thing::Body),
        sturdy(deeper),
        fits(b, Thing::Maybe(receiver)),
    ensures
        #[trigger] fits(
            b.dispatch(method, receiver, args, span, deeper).0,
            Thing::Value(b.dispatch(method, receiver, args, span, deeper).1),
        ),
{
    broadcast use {
        things, missing_fits, missing_gives, pass_plain_fits, pass_plain_gives, finish_call_fits,
        finish_call_gives,
    };

    reveal(BodyView::dispatch);
}

pub(crate) broadcast proof fn pass_plain_fits<'a>(
    b: BodyView<'a>,
    args: Seq<Given<'a>>,
    deeper: Deeper<'a>,
    count: nat,
    thing: Thing,
)
    requires
        fits(b, Thing::Body),
        sturdy(deeper),
        count <= args.len(),
        fits(b, thing),
    ensures
        #[trigger] fits(b.pass_plain(args, deeper, count).0, thing),
    decreases count,
{
    broadcast use {things, stored_fits, stored_gives};

    reveal(BodyView::pass_plain);
    if count > 0 {
        pass_plain_fits(b, args, deeper, (count - 1) as nat, Thing::Body);
        pass_plain_fits(b, args, deeper, (count - 1) as nat, thing);
        pass_plain_gives(b, args, deeper, (count - 1) as nat);
    }
}

pub(crate) broadcast proof fn pass_plain_gives<'a>(
    b: BodyView<'a>,
    args: Seq<Given<'a>>,
    deeper: Deeper<'a>,
    count: nat,
)
    requires
        fits(b, Thing::Body),
        sturdy(deeper),
        count <= args.len(),
    ensures
        #[trigger] fits(
            b.pass_plain(args, deeper, count).0,
            Thing::Values(b.pass_plain(args, deeper, count).1),
        ),
    decreases count,
{
    broadcast use {things, stored_fits, stored_gives};

    reveal(BodyView::pass_plain);
    if count > 0 {
        pass_plain_fits(b, args, deeper, (count - 1) as nat, Thing::Body);
        pass_plain_gives(b, args, deeper, (count - 1) as nat);
    }
}

pub(crate) broadcast proof fn closure_fits<'a>(
    b: BodyView<'a>,
    asynchronous: bool,
    params: Seq<Param>,
    body: FunctionBody,
    span: Span,
    deeper: Deeper<'a>,
    thing: Thing,
)
    requires
        fits(b, Thing::Body),
        sturdy(deeper),
        fits(b, thing),
    ensures
        #[trigger] fits(b.closure(asynchronous, params, body, span, deeper).0, thing),
{
    broadcast use {
        things, recorded_fits, missing_fits, missing_gives, lower_closure_fits, lower_closure_gives,
        emit_fits, emit_gives,
    };

    reveal(BodyView::closure);
}

pub(crate) broadcast proof fn closure_gives<'a>(
    b: BodyView<'a>,
    asynchronous: bool,
    params: Seq<Param>,
    body: FunctionBody,
    span: Span,
    deeper: Deeper<'a>,
)
    requires
        fits(b, Thing::Body),
        sturdy(deeper),
    ensures
        #[trigger] fits(
            b.closure(asynchronous, params, body, span, deeper).0,
            Thing::Value(b.closure(asynchronous, params, body, span, deeper).1),
        ),
{
    broadcast use {
        things, recorded_fits, missing_fits, missing_gives, lower_closure_fits, lower_closure_gives,
        emit_fits, emit_gives,
    };

    reveal(BodyView::closure);
}

pub(crate) broadcast proof fn lower_into_fits<'a>(
    b: BodyView<'a>,
    closure: bool,
    captured: Seq<Seq<char>>,
    types: Seq<TyView>,
    bindings: Seq<Bound<'a>>,
    body: FunctionBody,
    deeper: Deeper<'a>,
    thing: Thing,
)
    requires
        fits(b, Thing::Body),
        sturdy(deeper),
        fits(b, thing),
    ensures
        #[trigger] fits(b.lower_into(closure, captured, types, bindings, body, deeper), thing),
{
    broadcast use {things, enter_fits, block_fits, open_fits, ret_fits, close_fits, run_off_fits};

    reveal(BodyView::lower_into);
}

pub(crate) broadcast proof fn lower_block_fits<'a>(
    b: BodyView<'a>,
    bindings: Seq<Bound<'a>>,
    block: Block,
    deeper: Deeper<'a>,
    thing: Thing,
)
    requires
        fits(b, Thing::Body),
        sturdy(deeper),
        fits(b, thing),
    ensures
        #[trigger] fits(b.lower_block(bindings, block, deeper), thing),
{
    broadcast use {things, enter_fits, block_fits, run_off_fits};

    reveal(BodyView::lower_block);
}

pub(crate) broadcast proof fn enter_fits<'a>(
    b: BodyView<'a>,
    closure: bool,
    captured: Seq<Seq<char>>,
    types: Seq<TyView>,
    bindings: Seq<Bound<'a>>,
    span: Span,
    deeper: Deeper<'a>,
    thing: Thing,
)
    requires
        fits(b, Thing::Body),
        sturdy(deeper),
        fits(b, thing),
    ensures
        #[trigger] fits(b.enter(closure, captured, types, bindings, span, deeper), thing),
{
    broadcast use {things, bind_captured_fits, bind_entry_fits};

    reveal(BodyView::enter);
}

pub(crate) broadcast proof fn run_off_fits<'a>(
    b: BodyView<'a>,
    span: Span,
    thing: Thing,
)
    requires
        fits(b, Thing::Body),
        fits(b, thing),
    ensures
        #[trigger] fits(b.run_off(span), thing),
{
    broadcast use {things, unit_fits, unit_gives, returned_fits, returned_gives, terminate_fits};

    reveal(BodyView::run_off);
}

pub(crate) broadcast proof fn bind_captured_fits<'a>(
    b: BodyView<'a>,
    object: Value,
    captured: Seq<Seq<char>>,
    types: Seq<TyView>,
    span: Span,
    count: nat,
    thing: Thing,
)
    requires
        fits(b, Thing::Body),
        fits(b, Thing::Value(object)),
        count <= captured.len(),
        fits(b, thing),
    ensures
        #[trigger] fits(b.bind_captured(object, captured, types, span, count), thing),
    decreases count,
{
    broadcast use {things, emit_fits, emit_gives, bind_name_fits};

    reveal(BodyView::bind_captured);
    if count > 0 {
        bind_captured_fits(b, object, captured, types, span, (count - 1) as nat, Thing::Body);
        bind_captured_fits(
            b,
            object,
            captured,
            types,
            span,
            (count - 1) as nat,
            Thing::Value(object),
        );
        bind_captured_fits(b, object, captured, types, span, (count - 1) as nat, thing);
    }
}

pub(crate) broadcast proof fn bind_entry_fits<'a>(
    b: BodyView<'a>,
    bindings: Seq<Bound<'a>>,
    passed: Seq<Value>,
    span: Span,
    deeper: Deeper<'a>,
    count: nat,
    thing: Thing,
)
    requires
        fits(b, Thing::Body),
        sturdy(deeper),
        fits(b, Thing::Values(passed)),
        count <= bindings.len(),
        fits(b, thing),
    ensures
        #[trigger] fits(b.bind_entry(bindings, passed, span, deeper, count), thing),
    decreases count,
{
    broadcast use {things, bind_name_fits, bind_value_fits};

    reveal(BodyView::bind_entry);
    if count > 0 {
        bind_entry_fits(b, bindings, passed, span, deeper, (count - 1) as nat, Thing::Body);
        bind_entry_fits(
            b,
            bindings,
            passed,
            span,
            deeper,
            (count - 1) as nat,
            Thing::Values(passed),
        );
        bind_entry_fits(b, bindings, passed, span, deeper, (count - 1) as nat, thing);
    }
}

#[verifier::rlimit(60)]
proof fn a_lowered_closure_fits<'a>(
    b: BodyView<'a>,
    ty: TyView,
    captures: CapturesView,
    params: Seq<Param>,
    body: FunctionBody,
    span: Span,
    deeper: Deeper<'a>,
    thing: Thing,
)
    requires
        fits(b, Thing::Body),
        sturdy(deeper),
        fits(b, thing),
    ensures
        fits(b.lower_closure(ty, captures, params, body, span, deeper).0, thing),
        fits(
            b.lower_closure(ty, captures, params, body, span, deeper).0,
            Thing::MaybeFunc(b.lower_closure(ty, captures, params, body, span, deeper).1),
        ),
{
    reveal(BodyView::lower_closure);
    assert(fits(b, Thing::MaybeFunc(None))) by {
        reveal(fits);
    }
    let after = b.lower_closure(ty, captures, params, body, span, deeper).0;
    match function_of_view(ty) {
        Some(shape) => {
            if b.next_function < u32::MAX && shape.params.len() < id_limit() {
                let id = FuncId(b.next_function);
                let shell = FunctionView {
                    asynchronous: shape.asynchronous,
                    ..FunctionView::fresh(
                        closure_name(b.function.name, id),
                        seq![ty] + shape.params,
                        thrown_or_view(shape.result),
                        span,
                    )
                };
                let fresh = BodyView::fresh(
                    b.context,
                    shell,
                    true,
                    in_body(Seq::empty(), body, Seeking::Assigned),
                    (b.next_function + 1) as u32,
                );
                let types = captured_types(b, captures.vars);
                let bound = bound_params_view(params);
                assert(fits(fresh, Thing::Body)) by {
                    reveal(fits);
                    reveal(calls_fit);
                    reveal(BodyView::fresh);
                    assert(fresh.function.blocks[0].within(
                        nameable(fresh.function),
                        fresh.function.slots.len(),
                        fresh.function.blocks.len(),
                    ));
                }
                lower_into_fits(
                    fresh,
                    true,
                    captures.names,
                    types,
                    bound,
                    body,
                    deeper,
                    Thing::Body,
                );
                let count = b.context.program.functions.len();
                assert(fits(fresh, Thing::Declared(count)) && fits(fresh, Thing::Func(id))) by {
                    reveal(fits);
                    reveal(BodyView::fresh);
                }
                lower_into_fits(
                    fresh,
                    true,
                    captures.names,
                    types,
                    bound,
                    body,
                    deeper,
                    Thing::Declared(count),
                );
                lower_into_fits(
                    fresh,
                    true,
                    captures.names,
                    types,
                    bound,
                    body,
                    deeper,
                    Thing::Func(id),
                );
                let inner = fresh.lower_into(true, captures.names, types, bound, body, deeper);
                reveal(fits);
                if thing is Body {
                    assert(calls_fit(b.context, after.function, after.made, after.next_function))
                        by {
                        reveal(calls_fit);
                        assert forall|i: int| 0 <= i < after.made.len() implies (
                        #[trigger] after.made[i]).1.calls_within(
                            callable(after.context, after.next_function),
                        ) by {
                            if i < b.made.len() {
                                assert(after.made[i] == b.made[i]);
                            } else if i > b.made.len() {
                                assert(after.made[i] == inner.made[i - b.made.len() - 1]);
                            }
                        }
                    }
                    assert forall|i: int| 0 <= i < after.made.len() implies nearly_well_formed(
                        (#[trigger] after.made[i]).1,
                    ) by {
                        if i < b.made.len() {
                            assert(after.made[i] == b.made[i]);
                        } else if i > b.made.len() {
                            assert(after.made[i] == inner.made[i - b.made.len() - 1]);
                        }
                    }
                }
            }
        },
        None => {},
    }
}

pub(crate) broadcast proof fn lower_closure_fits<'a>(
    b: BodyView<'a>,
    ty: TyView,
    captures: CapturesView,
    params: Seq<Param>,
    body: FunctionBody,
    span: Span,
    deeper: Deeper<'a>,
    thing: Thing,
)
    requires
        fits(b, Thing::Body),
        sturdy(deeper),
        fits(b, thing),
    ensures
        #[trigger] fits(b.lower_closure(ty, captures, params, body, span, deeper).0, thing),
{
    a_lowered_closure_fits(b, ty, captures, params, body, span, deeper, thing);
}

pub(crate) broadcast proof fn lower_closure_gives<'a>(
    b: BodyView<'a>,
    ty: TyView,
    captures: CapturesView,
    params: Seq<Param>,
    body: FunctionBody,
    span: Span,
    deeper: Deeper<'a>,
)
    requires
        fits(b, Thing::Body),
        sturdy(deeper),
    ensures
        #[trigger] fits(
            b.lower_closure(ty, captures, params, body, span, deeper).0,
            Thing::MaybeFunc(b.lower_closure(ty, captures, params, body, span, deeper).1),
        ),
{
    a_lowered_closure_fits(b, ty, captures, params, body, span, deeper, Thing::Body);
}

} // verus!
