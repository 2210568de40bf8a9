//! That what lowering a body names is there: intrinsics.

use vstd::prelude::*;

use crate::ast::Expr;
use crate::sema::{BuiltinCall, CollectionMutation, Intrinsic, OverflowMethod};
use crate::span::Span;
use crate::ty::TyView;

use super::super::deeper::{Deeper, deeper};
use super::super::given::Given;
use super::super::BodyView;
use super::leaves::{
    branch_fits, display_fits, display_gives, error_test_fits, jump_with_fits, missing_fits,
    missing_gives, payload_fits, payload_gives, unit_fits, unit_gives, variant_with_fits,
    variant_with_gives,
};
use super::{
    Thing, add_block_fits, add_block_gives, add_block_param_fits, add_block_param_gives, emit_fits,
    emit_gives, emit_void_fits, expr_fits, expr_gives, fits, recorded_fits, sturdy, switch_to_fits,
    things,
};
use super::scopes::{caught_or_raised_fits, caught_or_raised_gives, stored_fits, stored_gives};

verus! {

pub(crate) broadcast proof fn builtin_fits<'a>(
    b: BodyView<'a>,
    builtin: BuiltinCall,
    callee: Expr,
    args: Seq<Given<'a>>,
    span: Span,
    deeper: Deeper<'a>,
    thing: Thing,
)
    requires
        fits(b, Thing::Body),
        sturdy(deeper),
        fits(b, thing),
    ensures
        #[trigger] fits(b.builtin(builtin, callee, args, span, deeper).0, thing),
{
    broadcast use {
        things, expr_fits, expr_gives, recorded_fits, emit_fits, emit_gives, checked_index_fits,
        checked_index_gives, contains_fits, contains_gives, ok_or_fits, ok_or_gives, map_err_fits,
        map_err_gives, collection_mutation_fits, collection_mutation_gives, overflow_method_fits,
        overflow_method_gives, intrinsic_fits, intrinsic_gives,
    };

    reveal(BodyView::builtin);
}

pub(crate) broadcast proof fn builtin_gives<'a>(
    b: BodyView<'a>,
    builtin: BuiltinCall,
    callee: Expr,
    args: Seq<Given<'a>>,
    span: Span,
    deeper: Deeper<'a>,
)
    requires
        fits(b, Thing::Body),
        sturdy(deeper),
    ensures
        #[trigger] fits(
            b.builtin(builtin, callee, args, span, deeper).0,
            Thing::Value(b.builtin(builtin, callee, args, span, deeper).1),
        ),
{
    broadcast use {
        things, expr_fits, expr_gives, recorded_fits, emit_fits, emit_gives, checked_index_fits,
        checked_index_gives, contains_fits, contains_gives, ok_or_fits, ok_or_gives, map_err_fits,
        map_err_gives, collection_mutation_fits, collection_mutation_gives, overflow_method_fits,
        overflow_method_gives, intrinsic_fits, intrinsic_gives,
    };

    reveal(BodyView::builtin);
}

pub(crate) broadcast proof fn memory_method_fits<'a>(
    b: BodyView<'a>,
    callee: Expr,
    name: Seq<char>,
    target: TyView,
    args: Seq<Given<'a>>,
    span: Span,
    deeper: Deeper<'a>,
    thing: Thing,
)
    requires
        fits(b, Thing::Body),
        sturdy(deeper),
        fits(b, thing),
    ensures
        #[trigger] fits(b.memory_method(callee, name, target, args, span, deeper).0, thing),
{
    broadcast use {
        things, expr_fits, expr_gives, emit_fits, emit_gives, stored_fits, stored_gives,
        emit_void_fits, unit_fits, unit_gives, missing_fits, missing_gives,
    };

    reveal(BodyView::memory_method);
}

pub(crate) broadcast proof fn memory_method_gives<'a>(
    b: BodyView<'a>,
    callee: Expr,
    name: Seq<char>,
    target: TyView,
    args: Seq<Given<'a>>,
    span: Span,
    deeper: Deeper<'a>,
)
    requires
        fits(b, Thing::Body),
        sturdy(deeper),
    ensures
        #[trigger] fits(
            b.memory_method(callee, name, target, args, span, deeper).0,
            Thing::Value(b.memory_method(callee, name, target, args, span, deeper).1),
        ),
{
    broadcast use {
        things, expr_fits, expr_gives, emit_fits, emit_gives, stored_fits, stored_gives,
        emit_void_fits, unit_fits, unit_gives, missing_fits, missing_gives,
    };

    reveal(BodyView::memory_method);
}

pub(crate) broadcast proof fn intrinsic_fits<'a>(
    b: BodyView<'a>,
    intrinsic: Intrinsic,
    args: Seq<Given<'a>>,
    span: Span,
    deeper: Deeper<'a>,
    thing: Thing,
)
    requires
        fits(b, Thing::Body),
        sturdy(deeper),
        fits(b, thing),
    ensures
        #[trigger] fits(b.intrinsic(intrinsic, args, span, deeper).0, thing),
{
    broadcast use {
        things, recorded_fits, missing_fits, missing_gives, emit_fits, emit_gives, expr_fits,
        expr_gives, print_fits, print_gives, unit_fits, unit_gives, assertion_fits, assertion_gives,
    };

    reveal(BodyView::intrinsic);
}

pub(crate) broadcast proof fn intrinsic_gives<'a>(
    b: BodyView<'a>,
    intrinsic: Intrinsic,
    args: Seq<Given<'a>>,
    span: Span,
    deeper: Deeper<'a>,
)
    requires
        fits(b, Thing::Body),
        sturdy(deeper),
    ensures
        #[trigger] fits(
            b.intrinsic(intrinsic, args, span, deeper).0,
            Thing::Value(b.intrinsic(intrinsic, args, span, deeper).1),
        ),
{
    broadcast use {
        things, recorded_fits, missing_fits, missing_gives, emit_fits, emit_gives, expr_fits,
        expr_gives, print_fits, print_gives, unit_fits, unit_gives, assertion_fits, assertion_gives,
    };

    reveal(BodyView::intrinsic);
}

pub(crate) broadcast proof fn print_fits<'a>(
    b: BodyView<'a>,
    args: Seq<Given<'a>>,
    span: Span,
    deeper: Deeper<'a>,
    thing: Thing,
)
    requires
        fits(b, Thing::Body),
        sturdy(deeper),
        fits(b, thing),
    ensures
        #[trigger] fits(b.print(args, span, deeper).0, thing),
{
    broadcast use {
        things, emit_fits, emit_gives, emit_void_fits, unit_fits, unit_gives, run_each_fits,
        missing_fits, missing_gives, expr_fits, expr_gives, display_fits, display_gives,
    };

    reveal(BodyView::print);
}

pub(crate) broadcast proof fn print_gives<'a>(
    b: BodyView<'a>,
    args: Seq<Given<'a>>,
    span: Span,
    deeper: Deeper<'a>,
)
    requires
        fits(b, Thing::Body),
        sturdy(deeper),
    ensures
        #[trigger] fits(b.print(args, span, deeper).0, Thing::Value(b.print(args, span, deeper).1)),
{
    broadcast use {
        things, emit_fits, emit_gives, emit_void_fits, unit_fits, unit_gives, run_each_fits,
        missing_fits, missing_gives, expr_fits, expr_gives, display_fits, display_gives,
    };

    reveal(BodyView::print);
}

pub(crate) broadcast proof fn run_each_fits<'a>(
    b: BodyView<'a>,
    args: Seq<Given<'a>>,
    deeper: Deeper<'a>,
    count: nat,
    thing: Thing,
)
    requires
        fits(b, Thing::Body),
        sturdy(deeper),
        count <= args.len(),
        fits(b, thing),
    ensures
        #[trigger] fits(b.run_each(args, deeper, count), thing),
    decreases count,
{
    broadcast use {things, expr_fits, expr_gives};

    reveal(BodyView::run_each);
    if count > 0 {
        run_each_fits(b, args, deeper, (count - 1) as nat, Thing::Body);
        run_each_fits(b, args, deeper, (count - 1) as nat, thing);
    }
}

pub(crate) broadcast proof fn assertion_fits<'a>(
    b: BodyView<'a>,
    args: Seq<Given<'a>>,
    span: Span,
    deeper: Deeper<'a>,
    thing: Thing,
)
    requires
        fits(b, Thing::Body),
        sturdy(deeper),
        fits(b, thing),
    ensures
        #[trigger] fits(b.assertion(args, span, deeper).0, thing),
{
    broadcast use {
        things, assertion_values_fits, assertion_values_gives, missing_fits, missing_gives,
        emit_void_fits, unit_fits, unit_gives,
    };

    reveal(BodyView::assertion);
}

pub(crate) broadcast proof fn assertion_gives<'a>(
    b: BodyView<'a>,
    args: Seq<Given<'a>>,
    span: Span,
    deeper: Deeper<'a>,
)
    requires
        fits(b, Thing::Body),
        sturdy(deeper),
    ensures
        #[trigger] fits(
            b.assertion(args, span, deeper).0,
            Thing::Value(b.assertion(args, span, deeper).1),
        ),
{
    broadcast use {
        things, assertion_values_fits, assertion_values_gives, missing_fits, missing_gives,
        emit_void_fits, unit_fits, unit_gives,
    };

    reveal(BodyView::assertion);
}

pub(crate) broadcast proof fn assertion_values_fits<'a>(
    b: BodyView<'a>,
    args: Seq<Given<'a>>,
    slots: Seq<bool>,
    deeper: Deeper<'a>,
    count: nat,
    thing: Thing,
)
    requires
        fits(b, Thing::Body),
        sturdy(deeper),
        count <= args.len(),
        fits(b, thing),
    ensures
        #[trigger] fits(b.assertion_values(args, slots, deeper, count).0, thing),
    decreases count,
{
    broadcast use {things, expr_fits, expr_gives};

    reveal(BodyView::assertion_values);
    if count > 0 {
        assertion_values_fits(b, args, slots, deeper, (count - 1) as nat, Thing::Body);
        assertion_values_fits(b, args, slots, deeper, (count - 1) as nat, thing);
        assertion_values_gives(b, args, slots, deeper, (count - 1) as nat);
    }
}

pub(crate) broadcast proof fn assertion_values_gives<'a>(
    b: BodyView<'a>,
    args: Seq<Given<'a>>,
    slots: Seq<bool>,
    deeper: Deeper<'a>,
    count: nat,
)
    requires
        fits(b, Thing::Body),
        sturdy(deeper),
        count <= args.len(),
    ensures
        #[trigger] fits(
            b.assertion_values(args, slots, deeper, count).0,
            Thing::Values(b.assertion_values(args, slots, deeper, count).1),
        ),
    decreases count,
{
    broadcast use {things, expr_fits, expr_gives};

    reveal(BodyView::assertion_values);
    if count > 0 {
        assertion_values_fits(b, args, slots, deeper, (count - 1) as nat, Thing::Body);
        assertion_values_gives(b, args, slots, deeper, (count - 1) as nat);
    }
}

pub(crate) broadcast proof fn checked_index_fits<'a>(
    b: BodyView<'a>,
    callee: Expr,
    args: Seq<Given<'a>>,
    span: Span,
    deeper: Deeper<'a>,
    thing: Thing,
)
    requires
        fits(b, Thing::Body),
        sturdy(deeper),
        fits(b, thing),
    ensures
        #[trigger] fits(b.checked_index(callee, args, span, deeper).0, thing),
{
    broadcast use {
        things, expr_fits, expr_gives, missing_fits, missing_gives, recorded_fits, emit_fits,
        emit_gives,
    };

    reveal(BodyView::checked_index);
}

pub(crate) broadcast proof fn checked_index_gives<'a>(
    b: BodyView<'a>,
    callee: Expr,
    args: Seq<Given<'a>>,
    span: Span,
    deeper: Deeper<'a>,
)
    requires
        fits(b, Thing::Body),
        sturdy(deeper),
    ensures
        #[trigger] fits(
            b.checked_index(callee, args, span, deeper).0,
            Thing::Value(b.checked_index(callee, args, span, deeper).1),
        ),
{
    broadcast use {
        things, expr_fits, expr_gives, missing_fits, missing_gives, recorded_fits, emit_fits,
        emit_gives,
    };

    reveal(BodyView::checked_index);
}

pub(crate) broadcast proof fn collection_mutation_fits<'a>(
    b: BodyView<'a>,
    mutation: CollectionMutation,
    callee: Expr,
    args: Seq<Given<'a>>,
    span: Span,
    deeper: Deeper<'a>,
    thing: Thing,
)
    requires
        fits(b, Thing::Body),
        sturdy(deeper),
        fits(b, thing),
    ensures
        #[trigger] fits(b.collection_mutation(mutation, callee, args, span, deeper).0, thing),
{
    broadcast use {
        things, expr_fits, expr_gives, missing_fits, missing_gives, recorded_fits, emit_fits,
        emit_gives, emit_void_fits, unit_fits, unit_gives,
    };

    reveal(BodyView::collection_mutation);
}

pub(crate) broadcast proof fn collection_mutation_gives<'a>(
    b: BodyView<'a>,
    mutation: CollectionMutation,
    callee: Expr,
    args: Seq<Given<'a>>,
    span: Span,
    deeper: Deeper<'a>,
)
    requires
        fits(b, Thing::Body),
        sturdy(deeper),
    ensures
        #[trigger] fits(
            b.collection_mutation(mutation, callee, args, span, deeper).0,
            Thing::Value(b.collection_mutation(mutation, callee, args, span, deeper).1),
        ),
{
    broadcast use {
        things, expr_fits, expr_gives, missing_fits, missing_gives, recorded_fits, emit_fits,
        emit_gives, emit_void_fits, unit_fits, unit_gives,
    };

    reveal(BodyView::collection_mutation);
}

pub(crate) broadcast proof fn contains_fits<'a>(
    b: BodyView<'a>,
    callee: Expr,
    args: Seq<Given<'a>>,
    span: Span,
    deeper: Deeper<'a>,
    thing: Thing,
)
    requires
        fits(b, Thing::Body),
        sturdy(deeper),
        fits(b, thing),
    ensures
        #[trigger] fits(b.contains(callee, args, span, deeper).0, thing),
{
    broadcast use {
        things, expr_fits, expr_gives, missing_fits, missing_gives, emit_fits, emit_gives,
    };

    reveal(BodyView::contains);
}

pub(crate) broadcast proof fn contains_gives<'a>(
    b: BodyView<'a>,
    callee: Expr,
    args: Seq<Given<'a>>,
    span: Span,
    deeper: Deeper<'a>,
)
    requires
        fits(b, Thing::Body),
        sturdy(deeper),
    ensures
        #[trigger] fits(
            b.contains(callee, args, span, deeper).0,
            Thing::Value(b.contains(callee, args, span, deeper).1),
        ),
{
    broadcast use {
        things, expr_fits, expr_gives, missing_fits, missing_gives, emit_fits, emit_gives,
    };

    reveal(BodyView::contains);
}

pub(crate) broadcast proof fn ok_or_fits<'a>(
    b: BodyView<'a>,
    callee: Expr,
    args: Seq<Given<'a>>,
    span: Span,
    deeper: Deeper<'a>,
    thing: Thing,
)
    requires
        fits(b, Thing::Body),
        sturdy(deeper),
        fits(b, thing),
    ensures
        #[trigger] fits(b.ok_or(callee, args, span, deeper).0, thing),
{
    broadcast use {
        things, expr_fits, expr_gives, missing_fits, missing_gives, recorded_fits, stored_fits,
        stored_gives, add_block_fits, add_block_gives, emit_fits, emit_gives, branch_fits,
        switch_to_fits, variant_with_fits, variant_with_gives, jump_with_fits, add_block_param_fits,
        add_block_param_gives,
    };

    reveal(BodyView::ok_or);
}

pub(crate) broadcast proof fn ok_or_gives<'a>(
    b: BodyView<'a>,
    callee: Expr,
    args: Seq<Given<'a>>,
    span: Span,
    deeper: Deeper<'a>,
)
    requires
        fits(b, Thing::Body),
        sturdy(deeper),
    ensures
        #[trigger] fits(
            b.ok_or(callee, args, span, deeper).0,
            Thing::Value(b.ok_or(callee, args, span, deeper).1),
        ),
{
    broadcast use {
        things, expr_fits, expr_gives, missing_fits, missing_gives, recorded_fits, stored_fits,
        stored_gives, add_block_fits, add_block_gives, emit_fits, emit_gives, branch_fits,
        switch_to_fits, variant_with_fits, variant_with_gives, jump_with_fits, add_block_param_fits,
        add_block_param_gives,
    };

    reveal(BodyView::ok_or);
}

pub(crate) broadcast proof fn map_err_fits<'a>(
    b: BodyView<'a>,
    callee: Expr,
    args: Seq<Given<'a>>,
    span: Span,
    deeper: Deeper<'a>,
    thing: Thing,
)
    requires
        fits(b, Thing::Body),
        sturdy(deeper),
        fits(b, thing),
    ensures
        #[trigger] fits(b.map_err(callee, args, span, deeper).0, thing),
{
    broadcast use {
        things, expr_fits, expr_gives, missing_fits, missing_gives, recorded_fits, add_block_fits,
        add_block_gives, error_test_fits, switch_to_fits, payload_fits, payload_gives, emit_fits,
        emit_gives, caught_or_raised_fits, caught_or_raised_gives, variant_with_fits,
        variant_with_gives, jump_with_fits, add_block_param_fits, add_block_param_gives,
    };

    reveal(BodyView::map_err);
}

pub(crate) broadcast proof fn map_err_gives<'a>(
    b: BodyView<'a>,
    callee: Expr,
    args: Seq<Given<'a>>,
    span: Span,
    deeper: Deeper<'a>,
)
    requires
        fits(b, Thing::Body),
        sturdy(deeper),
    ensures
        #[trigger] fits(
            b.map_err(callee, args, span, deeper).0,
            Thing::Value(b.map_err(callee, args, span, deeper).1),
        ),
{
    broadcast use {
        things, expr_fits, expr_gives, missing_fits, missing_gives, recorded_fits, add_block_fits,
        add_block_gives, error_test_fits, switch_to_fits, payload_fits, payload_gives, emit_fits,
        emit_gives, caught_or_raised_fits, caught_or_raised_gives, variant_with_fits,
        variant_with_gives, jump_with_fits, add_block_param_fits, add_block_param_gives,
    };

    reveal(BodyView::map_err);
}

pub(crate) broadcast proof fn overflow_method_fits<'a>(
    b: BodyView<'a>,
    method: OverflowMethod,
    callee: Expr,
    args: Seq<Given<'a>>,
    span: Span,
    deeper: Deeper<'a>,
    thing: Thing,
)
    requires
        fits(b, Thing::Body),
        sturdy(deeper),
        fits(b, thing),
    ensures
        #[trigger] fits(b.overflow_method(method, callee, args, span, deeper).0, thing),
{
    broadcast use {
        things, missing_fits, missing_gives, recorded_fits, expr_fits, expr_gives, emit_fits,
        emit_gives,
    };

    reveal(BodyView::overflow_method);
}

pub(crate) broadcast proof fn overflow_method_gives<'a>(
    b: BodyView<'a>,
    method: OverflowMethod,
    callee: Expr,
    args: Seq<Given<'a>>,
    span: Span,
    deeper: Deeper<'a>,
)
    requires
        fits(b, Thing::Body),
        sturdy(deeper),
    ensures
        #[trigger] fits(
            b.overflow_method(method, callee, args, span, deeper).0,
            Thing::Value(b.overflow_method(method, callee, args, span, deeper).1),
        ),
{
    broadcast use {
        things, missing_fits, missing_gives, recorded_fits, expr_fits, expr_gives, emit_fits,
        emit_gives,
    };

    reveal(BodyView::overflow_method);
}

} // verus!
