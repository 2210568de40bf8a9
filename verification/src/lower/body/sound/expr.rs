//! That what lowering a body names is there: expressions.

use vstd::prelude::*;

use crate::ast::UnaryOp as AstUnary;
use crate::ast::BinaryOp as AstBinary;
use crate::ast::{Expr, IfBranch, InterpolationPart};
use crate::inst::Value;
use crate::span::Span;
use crate::ty::TyView;

use super::super::deeper::{Deeper, deeper};
use super::super::derived::Ways;
use super::super::BodyView;
use super::calls::{call_fits, call_gives, closure_fits, closure_gives};
use super::construct::{
    field_fits, field_gives, index_fits, index_gives, list_fits, list_gives, map_fits, map_gives,
    record_fits, record_gives, set_fits, set_gives,
};
use super::derived::{split_optional_fits, split_optional_gives};
use super::leaves::{
    branch_fits, coerce_fits, coerce_gives, display_fits, display_gives, error_test_fits,
    jump_with_fits, missing_fits, missing_gives, numeric_fits, operand_type_fits, payload_fits,
    payload_gives, read_var_fits, read_var_gives, returned_fits, returned_gives, settled_fits,
    settled_gives, settled_type_fits, unit_fits, unit_gives, variant_with_fits, variant_with_gives,
};
use super::{
    Thing, add_block_fits, add_block_gives, add_block_param_fits, add_block_param_gives, emit_fits,
    emit_gives, expr_fits, expr_gives, fits, join_carrying_fits, join_carrying_gives, recorded_fits,
    restore_fits, sturdy, switch_to_fits, terminate_fits, things,
};
use super::scopes::{constant_fits, constant_gives, unwind_from_fits};

verus! {

pub(crate) broadcast proof fn expr_within_fits<'a>(
    b: BodyView<'a>,
    expr: Expr,
    wanted: Option<TyView>,
    deeper: Deeper<'a>,
    thing: Thing,
)
    requires
        fits(b, Thing::Body),
        sturdy(deeper),
        fits(b, thing),
    ensures
        #[trigger] fits(b.expr_within(expr, wanted, deeper).0, thing),
{
    broadcast use {things, expr_value_fits, expr_value_gives, coerce_fits, coerce_gives};

    reveal(BodyView::expr_within);
}

pub(crate) broadcast proof fn expr_within_gives<'a>(
    b: BodyView<'a>,
    expr: Expr,
    wanted: Option<TyView>,
    deeper: Deeper<'a>,
)
    requires
        fits(b, Thing::Body),
        sturdy(deeper),
    ensures
        #[trigger] fits(
            b.expr_within(expr, wanted, deeper).0,
            Thing::Value(b.expr_within(expr, wanted, deeper).1),
        ),
{
    broadcast use {things, expr_value_fits, expr_value_gives, coerce_fits, coerce_gives};

    reveal(BodyView::expr_within);
}

pub(crate) broadcast proof fn expr_value_fits<'a>(
    b: BodyView<'a>,
    expr: Expr,
    wanted: Option<TyView>,
    deeper: Deeper<'a>,
    thing: Thing,
)
    requires
        fits(b, Thing::Body),
        sturdy(deeper),
        fits(b, thing),
    ensures
        #[trigger] fits(b.expr_value(expr, wanted, deeper).0, thing),
{
    broadcast use {
        things, emit_fits, emit_gives, numeric_fits, interpolation_fits, interpolation_gives,
        name_fits, name_gives, unary_fits, unary_gives, binary_fits, binary_gives, range_fits,
        range_gives, call_fits, call_gives, record_fits, record_gives, closure_fits, closure_gives,
        list_fits, list_gives, map_fits, map_gives, set_fits, set_gives, index_fits, index_gives,
        field_fits, field_gives, tuple_fits, tuple_gives, if_expr_fits, if_expr_gives,
        propagate_fits, propagate_gives, missing_fits, missing_gives, recorded_fits, expr_fits,
        expr_gives, address_fits, address_gives,
    };

    reveal(BodyView::expr_value);
}

pub(crate) broadcast proof fn expr_value_gives<'a>(
    b: BodyView<'a>,
    expr: Expr,
    wanted: Option<TyView>,
    deeper: Deeper<'a>,
)
    requires
        fits(b, Thing::Body),
        sturdy(deeper),
    ensures
        #[trigger] fits(
            b.expr_value(expr, wanted, deeper).0,
            Thing::Value(b.expr_value(expr, wanted, deeper).1),
        ),
{
    broadcast use {
        things, emit_fits, emit_gives, numeric_fits, interpolation_fits, interpolation_gives,
        name_fits, name_gives, unary_fits, unary_gives, binary_fits, binary_gives, range_fits,
        range_gives, call_fits, call_gives, record_fits, record_gives, closure_fits, closure_gives,
        list_fits, list_gives, map_fits, map_gives, set_fits, set_gives, index_fits, index_gives,
        field_fits, field_gives, tuple_fits, tuple_gives, if_expr_fits, if_expr_gives,
        propagate_fits, propagate_gives, missing_fits, missing_gives, recorded_fits, expr_fits,
        expr_gives, address_fits, address_gives,
    };

    reveal(BodyView::expr_value);
}

pub(crate) broadcast proof fn name_fits<'a>(
    b: BodyView<'a>,
    name: Seq<char>,
    wanted: Option<TyView>,
    span: Span,
    deeper: Deeper<'a>,
    thing: Thing,
)
    requires
        fits(b, Thing::Body),
        sturdy(deeper),
        fits(b, thing),
    ensures
        #[trigger] fits(b.name(name, wanted, span, deeper).0, thing),
{
    broadcast use {
        things, read_var_fits, read_var_gives, emit_fits, emit_gives, constant_fits, constant_gives,
    };

    reveal(BodyView::name);
}

pub(crate) broadcast proof fn name_gives<'a>(
    b: BodyView<'a>,
    name: Seq<char>,
    wanted: Option<TyView>,
    span: Span,
    deeper: Deeper<'a>,
)
    requires
        fits(b, Thing::Body),
        sturdy(deeper),
    ensures
        #[trigger] fits(
            b.name(name, wanted, span, deeper).0,
            Thing::Value(b.name(name, wanted, span, deeper).1),
        ),
{
    broadcast use {
        things, read_var_fits, read_var_gives, emit_fits, emit_gives, constant_fits, constant_gives,
    };

    reveal(BodyView::name);
}

pub(crate) broadcast proof fn unary_fits<'a>(
    b: BodyView<'a>,
    op: AstUnary,
    operand: Expr,
    wanted: Option<TyView>,
    span: Span,
    deeper: Deeper<'a>,
    thing: Thing,
)
    requires
        fits(b, Thing::Body),
        sturdy(deeper),
        fits(b, thing),
    ensures
        #[trigger] fits(b.unary(op, operand, wanted, span, deeper).0, thing),
{
    broadcast use {
        things, call_fits, call_gives, settled_type_fits, expr_fits, expr_gives, emit_fits,
        emit_gives,
    };

    reveal(BodyView::unary);
}

pub(crate) broadcast proof fn unary_gives<'a>(
    b: BodyView<'a>,
    op: AstUnary,
    operand: Expr,
    wanted: Option<TyView>,
    span: Span,
    deeper: Deeper<'a>,
)
    requires
        fits(b, Thing::Body),
        sturdy(deeper),
    ensures
        #[trigger] fits(
            b.unary(op, operand, wanted, span, deeper).0,
            Thing::Value(b.unary(op, operand, wanted, span, deeper).1),
        ),
{
    broadcast use {
        things, call_fits, call_gives, settled_type_fits, expr_fits, expr_gives, emit_fits,
        emit_gives,
    };

    reveal(BodyView::unary);
}

pub(crate) broadcast proof fn range_fits<'a>(
    b: BodyView<'a>,
    start: Option<Box<Expr>>,
    end: Option<Box<Expr>>,
    span: Span,
    deeper: Deeper<'a>,
    thing: Thing,
)
    requires
        fits(b, Thing::Body),
        sturdy(deeper),
        fits(b, thing),
    ensures
        #[trigger] fits(b.range(start, end, span, deeper).0, thing),
{
    broadcast use {things, recorded_fits, bound_fits, bound_gives, emit_fits, emit_gives};

    reveal(BodyView::range);
}

pub(crate) broadcast proof fn range_gives<'a>(
    b: BodyView<'a>,
    start: Option<Box<Expr>>,
    end: Option<Box<Expr>>,
    span: Span,
    deeper: Deeper<'a>,
)
    requires
        fits(b, Thing::Body),
        sturdy(deeper),
    ensures
        #[trigger] fits(
            b.range(start, end, span, deeper).0,
            Thing::Value(b.range(start, end, span, deeper).1),
        ),
{
    broadcast use {things, recorded_fits, bound_fits, bound_gives, emit_fits, emit_gives};

    reveal(BodyView::range);
}

pub(crate) broadcast proof fn bound_fits<'a>(
    b: BodyView<'a>,
    written: Option<Box<Expr>>,
    bound: TyView,
    span: Span,
    deeper: Deeper<'a>,
    thing: Thing,
)
    requires
        fits(b, Thing::Body),
        sturdy(deeper),
        fits(b, thing),
    ensures
        #[trigger] fits(b.bound(written, bound, span, deeper).0, thing),
{
    broadcast use {things, expr_fits, expr_gives, emit_fits, emit_gives};

    reveal(BodyView::bound);
}

pub(crate) broadcast proof fn bound_gives<'a>(
    b: BodyView<'a>,
    written: Option<Box<Expr>>,
    bound: TyView,
    span: Span,
    deeper: Deeper<'a>,
)
    requires
        fits(b, Thing::Body),
        sturdy(deeper),
    ensures
        #[trigger] fits(
            b.bound(written, bound, span, deeper).0,
            Thing::Value(b.bound(written, bound, span, deeper).1),
        ),
{
    broadcast use {things, expr_fits, expr_gives, emit_fits, emit_gives};

    reveal(BodyView::bound);
}

pub(crate) broadcast proof fn tuple_fits<'a>(
    b: BodyView<'a>,
    members: Seq<Expr>,
    wanted: Option<TyView>,
    span: Span,
    deeper: Deeper<'a>,
    thing: Thing,
)
    requires
        fits(b, Thing::Body),
        sturdy(deeper),
        fits(b, thing),
    ensures
        #[trigger] fits(b.tuple(members, wanted, span, deeper).0, thing),
{
    broadcast use {
        things, unit_fits, unit_gives, recorded_fits, missing_fits, missing_gives, each_member_fits,
        each_member_gives, emit_fits, emit_gives,
    };

    reveal(BodyView::tuple);
}

pub(crate) broadcast proof fn tuple_gives<'a>(
    b: BodyView<'a>,
    members: Seq<Expr>,
    wanted: Option<TyView>,
    span: Span,
    deeper: Deeper<'a>,
)
    requires
        fits(b, Thing::Body),
        sturdy(deeper),
    ensures
        #[trigger] fits(
            b.tuple(members, wanted, span, deeper).0,
            Thing::Value(b.tuple(members, wanted, span, deeper).1),
        ),
{
    broadcast use {
        things, unit_fits, unit_gives, recorded_fits, missing_fits, missing_gives, each_member_fits,
        each_member_gives, emit_fits, emit_gives,
    };

    reveal(BodyView::tuple);
}

pub(crate) broadcast proof fn each_member_fits<'a>(
    b: BodyView<'a>,
    members: Seq<Expr>,
    types: Seq<TyView>,
    deeper: Deeper<'a>,
    count: nat,
    thing: Thing,
)
    requires
        fits(b, Thing::Body),
        sturdy(deeper),
        count <= members.len(),
        fits(b, thing),
    ensures
        #[trigger] fits(b.each_member(members, types, deeper, count).0, thing),
    decreases count,
{
    broadcast use {things, expr_fits, expr_gives};

    reveal(BodyView::each_member);
    if count > 0 {
        each_member_fits(b, members, types, deeper, (count - 1) as nat, Thing::Body);
        each_member_fits(b, members, types, deeper, (count - 1) as nat, thing);
        each_member_gives(b, members, types, deeper, (count - 1) as nat);
    }
}

pub(crate) broadcast proof fn each_member_gives<'a>(
    b: BodyView<'a>,
    members: Seq<Expr>,
    types: Seq<TyView>,
    deeper: Deeper<'a>,
    count: nat,
)
    requires
        fits(b, Thing::Body),
        sturdy(deeper),
        count <= members.len(),
    ensures
        #[trigger] fits(
            b.each_member(members, types, deeper, count).0,
            Thing::Values(b.each_member(members, types, deeper, count).1),
        ),
    decreases count,
{
    broadcast use {things, expr_fits, expr_gives};

    reveal(BodyView::each_member);
    if count > 0 {
        each_member_fits(b, members, types, deeper, (count - 1) as nat, Thing::Body);
        each_member_gives(b, members, types, deeper, (count - 1) as nat);
    }
}

pub(crate) broadcast proof fn address_fits<'a>(
    b: BodyView<'a>,
    mutable: bool,
    operand: Expr,
    span: Span,
    deeper: Deeper<'a>,
    thing: Thing,
)
    requires
        fits(b, Thing::Body),
        sturdy(deeper),
        fits(b, thing),
    ensures
        #[trigger] fits(b.address(mutable, operand, span, deeper).0, thing),
{
    broadcast use {
        things, missing_fits, missing_gives, recorded_fits, emit_fits, emit_gives, expr_fits,
        expr_gives, settled_fits, settled_gives,
    };

    reveal(BodyView::address);
}

pub(crate) broadcast proof fn address_gives<'a>(
    b: BodyView<'a>,
    mutable: bool,
    operand: Expr,
    span: Span,
    deeper: Deeper<'a>,
)
    requires
        fits(b, Thing::Body),
        sturdy(deeper),
    ensures
        #[trigger] fits(
            b.address(mutable, operand, span, deeper).0,
            Thing::Value(b.address(mutable, operand, span, deeper).1),
        ),
{
    broadcast use {
        things, missing_fits, missing_gives, recorded_fits, emit_fits, emit_gives, expr_fits,
        expr_gives, settled_fits, settled_gives,
    };

    reveal(BodyView::address);
}

pub(crate) broadcast proof fn interpolation_fits<'a>(
    b: BodyView<'a>,
    parts: Seq<InterpolationPart>,
    span: Span,
    deeper: Deeper<'a>,
    thing: Thing,
)
    requires
        fits(b, Thing::Body),
        sturdy(deeper),
        fits(b, thing),
    ensures
        #[trigger] fits(b.interpolation(parts, span, deeper).0, thing),
{
    broadcast use {things, emit_fits, emit_gives, interpolated_fits, interpolated_gives};

    reveal(BodyView::interpolation);
}

pub(crate) broadcast proof fn interpolation_gives<'a>(
    b: BodyView<'a>,
    parts: Seq<InterpolationPart>,
    span: Span,
    deeper: Deeper<'a>,
)
    requires
        fits(b, Thing::Body),
        sturdy(deeper),
    ensures
        #[trigger] fits(
            b.interpolation(parts, span, deeper).0,
            Thing::Value(b.interpolation(parts, span, deeper).1),
        ),
{
    broadcast use {things, emit_fits, emit_gives, interpolated_fits, interpolated_gives};

    reveal(BodyView::interpolation);
}

pub(crate) broadcast proof fn interpolated_fits<'a>(
    b: BodyView<'a>,
    first: Value,
    parts: Seq<InterpolationPart>,
    span: Span,
    deeper: Deeper<'a>,
    count: nat,
    thing: Thing,
)
    requires
        fits(b, Thing::Body),
        sturdy(deeper),
        fits(b, Thing::Value(first)),
        count <= parts.len(),
        fits(b, thing),
    ensures
        #[trigger] fits(b.interpolated(first, parts, span, deeper, count).0, thing),
    decreases count,
{
    broadcast use {
        things, emit_fits, emit_gives, expr_fits, expr_gives, display_fits, display_gives,
    };

    reveal(BodyView::interpolated);
    if count > 0 {
        interpolated_fits(b, first, parts, span, deeper, (count - 1) as nat, Thing::Body);
        interpolated_fits(b, first, parts, span, deeper, (count - 1) as nat, Thing::Value(first));
        interpolated_fits(b, first, parts, span, deeper, (count - 1) as nat, thing);
        interpolated_gives(b, first, parts, span, deeper, (count - 1) as nat);
    }
}

pub(crate) broadcast proof fn interpolated_gives<'a>(
    b: BodyView<'a>,
    first: Value,
    parts: Seq<InterpolationPart>,
    span: Span,
    deeper: Deeper<'a>,
    count: nat,
)
    requires
        fits(b, Thing::Body),
        sturdy(deeper),
        fits(b, Thing::Value(first)),
        count <= parts.len(),
    ensures
        #[trigger] fits(
            b.interpolated(first, parts, span, deeper, count).0,
            Thing::Maybe(b.interpolated(first, parts, span, deeper, count).1),
        ),
    decreases count,
{
    broadcast use {
        things, emit_fits, emit_gives, expr_fits, expr_gives, display_fits, display_gives,
    };

    reveal(BodyView::interpolated);
    if count > 0 {
        interpolated_fits(b, first, parts, span, deeper, (count - 1) as nat, Thing::Body);
        interpolated_fits(b, first, parts, span, deeper, (count - 1) as nat, Thing::Value(first));
        interpolated_gives(b, first, parts, span, deeper, (count - 1) as nat);
    }
}

pub(crate) broadcast proof fn propagate_fits<'a>(
    b: BodyView<'a>,
    inner: Expr,
    span: Span,
    deeper: Deeper<'a>,
    thing: Thing,
)
    requires
        fits(b, Thing::Body),
        sturdy(deeper),
        fits(b, thing),
    ensures
        #[trigger] fits(b.propagate(inner, span, deeper).0, thing),
{
    broadcast use {
        things, expr_fits, expr_gives, missing_fits, missing_gives, add_block_fits, add_block_gives,
        error_test_fits, switch_to_fits, payload_fits, payload_gives, propagated_error_fits,
        propagated_error_gives, variant_with_fits, variant_with_gives, unwind_from_fits,
        returned_fits, returned_gives, terminate_fits,
    };

    reveal(BodyView::propagate);
}

pub(crate) broadcast proof fn propagate_gives<'a>(
    b: BodyView<'a>,
    inner: Expr,
    span: Span,
    deeper: Deeper<'a>,
)
    requires
        fits(b, Thing::Body),
        sturdy(deeper),
    ensures
        #[trigger] fits(
            b.propagate(inner, span, deeper).0,
            Thing::Value(b.propagate(inner, span, deeper).1),
        ),
{
    broadcast use {
        things, expr_fits, expr_gives, missing_fits, missing_gives, add_block_fits, add_block_gives,
        error_test_fits, switch_to_fits, payload_fits, payload_gives, propagated_error_fits,
        propagated_error_gives, variant_with_fits, variant_with_gives, unwind_from_fits,
        returned_fits, returned_gives, terminate_fits,
    };

    reveal(BodyView::propagate);
}

pub(crate) broadcast proof fn propagated_error_fits<'a>(
    b: BodyView<'a>,
    error: Value,
    wanted: TyView,
    span: Span,
    thing: Thing,
)
    requires
        fits(b, Thing::Body),
        fits(b, Thing::Value(error)),
        fits(b, thing),
    ensures
        #[trigger] fits(b.propagated_error(error, wanted, span).0, thing),
{
    broadcast use {things, missing_fits, missing_gives, emit_fits, emit_gives};

    reveal(BodyView::propagated_error);
}

pub(crate) broadcast proof fn propagated_error_gives<'a>(
    b: BodyView<'a>,
    error: Value,
    wanted: TyView,
    span: Span,
)
    requires
        fits(b, Thing::Body),
        fits(b, Thing::Value(error)),
    ensures
        #[trigger] fits(
            b.propagated_error(error, wanted, span).0,
            Thing::Value(b.propagated_error(error, wanted, span).1),
        ),
{
    broadcast use {things, missing_fits, missing_gives, emit_fits, emit_gives};

    reveal(BodyView::propagated_error);
}

pub(crate) broadcast proof fn binary_fits<'a>(
    b: BodyView<'a>,
    op: AstBinary,
    op_span: Span,
    left: Expr,
    right: Expr,
    span: Span,
    deeper: Deeper<'a>,
    thing: Thing,
)
    requires
        fits(b, Thing::Body),
        sturdy(deeper),
        fits(b, thing),
    ensures
        #[trigger] fits(b.binary(op, op_span, left, right, span, deeper).0, thing),
{
    broadcast use {
        things, nil_test_fits, nil_test_gives, missing_fits, missing_gives, through_protocol_fits,
        through_protocol_gives, logical_fits, logical_gives, coalesce_fits, coalesce_gives,
        operand_type_fits, expr_fits, expr_gives, emit_fits, emit_gives,
    };

    reveal(BodyView::binary);
}

pub(crate) broadcast proof fn binary_gives<'a>(
    b: BodyView<'a>,
    op: AstBinary,
    op_span: Span,
    left: Expr,
    right: Expr,
    span: Span,
    deeper: Deeper<'a>,
)
    requires
        fits(b, Thing::Body),
        sturdy(deeper),
    ensures
        #[trigger] fits(
            b.binary(op, op_span, left, right, span, deeper).0,
            Thing::Value(b.binary(op, op_span, left, right, span, deeper).1),
        ),
{
    broadcast use {
        things, nil_test_fits, nil_test_gives, missing_fits, missing_gives, through_protocol_fits,
        through_protocol_gives, logical_fits, logical_gives, coalesce_fits, coalesce_gives,
        operand_type_fits, expr_fits, expr_gives, emit_fits, emit_gives,
    };

    reveal(BodyView::binary);
}

pub(crate) broadcast proof fn nil_test_fits<'a>(
    b: BodyView<'a>,
    op: AstBinary,
    value: Expr,
    span: Span,
    deeper: Deeper<'a>,
    thing: Thing,
)
    requires
        fits(b, Thing::Body),
        sturdy(deeper),
        fits(b, thing),
    ensures
        #[trigger] fits(b.nil_test(op, value, span, deeper).0, thing),
{
    broadcast use {things, expr_fits, expr_gives, emit_fits, emit_gives};

    reveal(BodyView::nil_test);
}

pub(crate) broadcast proof fn nil_test_gives<'a>(
    b: BodyView<'a>,
    op: AstBinary,
    value: Expr,
    span: Span,
    deeper: Deeper<'a>,
)
    requires
        fits(b, Thing::Body),
        sturdy(deeper),
    ensures
        #[trigger] fits(
            b.nil_test(op, value, span, deeper).0,
            Thing::Value(b.nil_test(op, value, span, deeper).1),
        ),
{
    broadcast use {things, expr_fits, expr_gives, emit_fits, emit_gives};

    reveal(BodyView::nil_test);
}

pub(crate) broadcast proof fn through_protocol_fits<'a>(
    b: BodyView<'a>,
    protocol: Seq<char>,
    method: Seq<char>,
    op: AstBinary,
    left: Expr,
    right: Expr,
    span: Span,
    deeper: Deeper<'a>,
    thing: Thing,
)
    requires
        fits(b, Thing::Body),
        sturdy(deeper),
        fits(b, thing),
    ensures
        #[trigger] fits(
            b.through_protocol(protocol, method, op, left, right, span, deeper).0,
            thing,
        ),
{
    broadcast use {
        things, call_fits, call_gives, emit_fits, emit_gives, missing_fits, missing_gives,
    };

    reveal(BodyView::through_protocol);
}

pub(crate) broadcast proof fn through_protocol_gives<'a>(
    b: BodyView<'a>,
    protocol: Seq<char>,
    method: Seq<char>,
    op: AstBinary,
    left: Expr,
    right: Expr,
    span: Span,
    deeper: Deeper<'a>,
)
    requires
        fits(b, Thing::Body),
        sturdy(deeper),
    ensures
        #[trigger] fits(
            b.through_protocol(protocol, method, op, left, right, span, deeper).0,
            Thing::Value(b.through_protocol(protocol, method, op, left, right, span, deeper).1),
        ),
{
    broadcast use {
        things, call_fits, call_gives, emit_fits, emit_gives, missing_fits, missing_gives,
    };

    reveal(BodyView::through_protocol);
}

pub(crate) broadcast proof fn logical_fits<'a>(
    b: BodyView<'a>,
    all: bool,
    left: Expr,
    right: Expr,
    span: Span,
    deeper: Deeper<'a>,
    thing: Thing,
)
    requires
        fits(b, Thing::Body),
        sturdy(deeper),
        fits(b, thing),
    ensures
        #[trigger] fits(b.logical(all, left, right, span, deeper).0, thing),
{
    broadcast use {
        things, expr_fits, expr_gives, add_block_fits, add_block_gives, emit_fits, emit_gives,
        terminate_fits, switch_to_fits, jump_with_fits, add_block_param_fits, add_block_param_gives,
    };

    reveal(BodyView::logical);
}

pub(crate) broadcast proof fn logical_gives<'a>(
    b: BodyView<'a>,
    all: bool,
    left: Expr,
    right: Expr,
    span: Span,
    deeper: Deeper<'a>,
)
    requires
        fits(b, Thing::Body),
        sturdy(deeper),
    ensures
        #[trigger] fits(
            b.logical(all, left, right, span, deeper).0,
            Thing::Value(b.logical(all, left, right, span, deeper).1),
        ),
{
    broadcast use {
        things, expr_fits, expr_gives, add_block_fits, add_block_gives, emit_fits, emit_gives,
        terminate_fits, switch_to_fits, jump_with_fits, add_block_param_fits, add_block_param_gives,
    };

    reveal(BodyView::logical);
}

pub(crate) broadcast proof fn coalesce_fits<'a>(
    b: BodyView<'a>,
    left: Expr,
    right: Expr,
    span: Span,
    deeper: Deeper<'a>,
    thing: Thing,
)
    requires
        fits(b, Thing::Body),
        sturdy(deeper),
        fits(b, thing),
    ensures
        #[trigger] fits(b.coalesce(left, right, span, deeper).0, thing),
{
    broadcast use {
        things, recorded_fits, expr_fits, expr_gives, split_optional_fits, split_optional_gives,
        give_present_fits, switch_to_fits, jump_with_fits, add_block_param_fits,
        add_block_param_gives,
    };

    reveal(BodyView::coalesce);
}

pub(crate) broadcast proof fn coalesce_gives<'a>(
    b: BodyView<'a>,
    left: Expr,
    right: Expr,
    span: Span,
    deeper: Deeper<'a>,
)
    requires
        fits(b, Thing::Body),
        sturdy(deeper),
    ensures
        #[trigger] fits(
            b.coalesce(left, right, span, deeper).0,
            Thing::Value(b.coalesce(left, right, span, deeper).1),
        ),
{
    broadcast use {
        things, recorded_fits, expr_fits, expr_gives, split_optional_fits, split_optional_gives,
        give_present_fits, switch_to_fits, jump_with_fits, add_block_param_fits,
        add_block_param_gives,
    };

    reveal(BodyView::coalesce);
}

pub(crate) broadcast proof fn give_present_fits<'a>(
    b: BodyView<'a>,
    left: Value,
    ty: TyView,
    ways: Ways,
    span: Span,
    thing: Thing,
)
    requires
        fits(b, Thing::Body),
        fits(b, Thing::Value(left)),
        fits(b, Thing::Ways(ways)),
        fits(b, thing),
    ensures
        #[trigger] fits(b.give_present(left, ty, ways, span), thing),
{
    broadcast use {things, switch_to_fits, emit_fits, emit_gives, jump_with_fits};

    reveal(BodyView::give_present);
}

pub(crate) broadcast proof fn if_expr_fits<'a>(
    b: BodyView<'a>,
    branches: Seq<IfBranch>,
    otherwise: Expr,
    span: Span,
    deeper: Deeper<'a>,
    thing: Thing,
)
    requires
        fits(b, Thing::Body),
        sturdy(deeper),
        fits(b, thing),
    ensures
        #[trigger] fits(b.if_expr(branches, otherwise, span, deeper).0, thing),
{
    broadcast use {
        things, recorded_fits, add_block_fits, add_block_gives, if_values_fits, if_values_gives,
        expr_fits, expr_gives, join_carrying_fits, join_carrying_gives,
    };

    reveal(BodyView::if_expr);
}

pub(crate) broadcast proof fn if_expr_gives<'a>(
    b: BodyView<'a>,
    branches: Seq<IfBranch>,
    otherwise: Expr,
    span: Span,
    deeper: Deeper<'a>,
)
    requires
        fits(b, Thing::Body),
        sturdy(deeper),
    ensures
        #[trigger] fits(
            b.if_expr(branches, otherwise, span, deeper).0,
            Thing::Value(b.if_expr(branches, otherwise, span, deeper).1),
        ),
{
    broadcast use {
        things, recorded_fits, add_block_fits, add_block_gives, if_values_fits, if_values_gives,
        expr_fits, expr_gives, join_carrying_fits, join_carrying_gives,
    };

    reveal(BodyView::if_expr);
}

pub(crate) broadcast proof fn if_values_fits<'a>(
    b: BodyView<'a>,
    branches: Seq<IfBranch>,
    ty: TyView,
    span: Span,
    deeper: Deeper<'a>,
    count: nat,
    thing: Thing,
)
    requires
        fits(b, Thing::Body),
        sturdy(deeper),
        count <= branches.len(),
        fits(b, thing),
    ensures
        #[trigger] fits(b.if_values(branches, ty, span, deeper, count).0, thing),
    decreases count,
{
    broadcast use {
        things, expr_fits, expr_gives, add_block_fits, add_block_gives, branch_fits, switch_to_fits,
        restore_fits,
    };

    reveal(BodyView::if_values);
    if count > 0 {
        if_values_fits(b, branches, ty, span, deeper, (count - 1) as nat, Thing::Body);
        if_values_fits(b, branches, ty, span, deeper, (count - 1) as nat, thing);
        if_values_gives(b, branches, ty, span, deeper, (count - 1) as nat);
    }
}

pub(crate) broadcast proof fn if_values_gives<'a>(
    b: BodyView<'a>,
    branches: Seq<IfBranch>,
    ty: TyView,
    span: Span,
    deeper: Deeper<'a>,
    count: nat,
)
    requires
        fits(b, Thing::Body),
        sturdy(deeper),
        count <= branches.len(),
    ensures
        #[trigger] fits(
            b.if_values(branches, ty, span, deeper, count).0,
            Thing::Arrived(b.if_values(branches, ty, span, deeper, count).1),
        ),
    decreases count,
{
    broadcast use {
        things, expr_fits, expr_gives, add_block_fits, add_block_gives, branch_fits, switch_to_fits,
        restore_fits,
    };

    reveal(BodyView::if_values);
    if count > 0 {
        if_values_fits(b, branches, ty, span, deeper, (count - 1) as nat, Thing::Body);
        if_values_gives(b, branches, ty, span, deeper, (count - 1) as nat);
    }
}

} // verus!
