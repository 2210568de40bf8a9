//! That what lowering a body names is there: its steps.

use vstd::prelude::*;

use crate::ast::Expr;
use crate::inst::{InstKindView, Value};
use crate::program::BlockId;
use crate::span::Span;
use crate::ty::TyView;

use super::super::BodyView;
use super::{
    Thing, add_block_fits, add_block_gives, add_block_param_fits, add_block_param_gives,
    add_slot_fits, add_slot_gives, declare_fits, emit_fits, emit_gives, emit_void_fits, fits,
    gap_fits, recorded_fits, set_def_fits, switch_to_fits, terminate_fits, things,
};

verus! {

pub(crate) broadcast proof fn missing_fits<'a>(
    b: BodyView<'a>,
    span: Span,
    what: Seq<char>,
    thing: Thing,
)
    requires
        fits(b, Thing::Body),
        fits(b, thing),
    ensures
        #[trigger] fits(b.missing(span, what).0, thing),
{
    broadcast use {things, gap_fits, emit_fits, emit_gives};

    reveal(BodyView::missing);
}

pub(crate) broadcast proof fn missing_gives<'a>(
    b: BodyView<'a>,
    span: Span,
    what: Seq<char>,
)
    requires
        fits(b, Thing::Body),
    ensures
        #[trigger] fits(b.missing(span, what).0, Thing::Value(b.missing(span, what).1)),
{
    broadcast use {things, gap_fits, emit_fits, emit_gives};

    reveal(BodyView::missing);
}

pub(crate) broadcast proof fn unit_fits<'a>(
    b: BodyView<'a>,
    span: Span,
    thing: Thing,
)
    requires
        fits(b, Thing::Body),
        fits(b, thing),
    ensures
        #[trigger] fits(b.unit(span).0, thing),
{
    broadcast use {things, emit_fits, emit_gives};

    reveal(BodyView::unit);
}

pub(crate) broadcast proof fn unit_gives<'a>(
    b: BodyView<'a>,
    span: Span,
)
    requires
        fits(b, Thing::Body),
    ensures
        #[trigger] fits(b.unit(span).0, Thing::Value(b.unit(span).1)),
{
    broadcast use {things, emit_fits, emit_gives};

    reveal(BodyView::unit);
}

pub(crate) broadcast proof fn read_var_fits<'a>(
    b: BodyView<'a>,
    var: u32,
    span: Span,
    thing: Thing,
)
    requires
        fits(b, Thing::Body),
        fits(b, thing),
    ensures
        #[trigger] fits(b.read_var(var, span).0, thing),
{
    broadcast use {things, emit_fits, emit_gives};

    reveal(BodyView::read_var);
}

pub(crate) broadcast proof fn read_var_gives<'a>(
    b: BodyView<'a>,
    var: u32,
    span: Span,
)
    requires
        fits(b, Thing::Body),
    ensures
        #[trigger] fits(b.read_var(var, span).0, Thing::Value(b.read_var(var, span).1)),
{
    broadcast use {things, emit_fits, emit_gives};

    reveal(BodyView::read_var);
}

pub(crate) broadcast proof fn write_var_fits<'a>(
    b: BodyView<'a>,
    var: u32,
    value: Value,
    span: Span,
    thing: Thing,
)
    requires
        fits(b, Thing::Body),
        fits(b, Thing::Value(value)),
        fits(b, thing),
    ensures
        #[trigger] fits(b.write_var(var, value, span), thing),
{
    broadcast use {things, set_def_fits, emit_void_fits};

    reveal(BodyView::write_var);
}

pub(crate) broadcast proof fn bind_name_fits<'a>(
    b: BodyView<'a>,
    name: Seq<char>,
    value: Value,
    span: Span,
    thing: Thing,
)
    requires
        fits(b, Thing::Body),
        fits(b, Thing::Value(value)),
        fits(b, thing),
    ensures
        #[trigger] fits(b.bind_name(name, value, span), thing),
{
    broadcast use {
        things, declare_fits, set_def_fits, add_slot_fits, add_slot_gives, emit_void_fits,
    };

    reveal(BodyView::bind_name);
}

pub(crate) broadcast proof fn settled_fits<'a>(
    b: BodyView<'a>,
    value: Value,
    span: Span,
    thing: Thing,
)
    requires
        fits(b, Thing::Body),
        fits(b, Thing::Value(value)),
        fits(b, thing),
    ensures
        #[trigger] fits(b.settled(value, span).0, thing),
{
    broadcast use {things, emit_fits, emit_gives};

    reveal(BodyView::settled);
}

pub(crate) broadcast proof fn settled_gives<'a>(
    b: BodyView<'a>,
    value: Value,
    span: Span,
)
    requires
        fits(b, Thing::Body),
        fits(b, Thing::Value(value)),
    ensures
        #[trigger] fits(b.settled(value, span).0, Thing::Value(b.settled(value, span).1)),
{
    broadcast use {things, emit_fits, emit_gives};

    reveal(BodyView::settled);
}

pub(crate) broadcast proof fn operand_type_fits<'a>(
    b: BodyView<'a>,
    left: Expr,
    right: Expr,
    thing: Thing,
)
    requires
        fits(b, Thing::Body),
        fits(b, thing),
    ensures
        #[trigger] fits(b.operand_type(left, right).0, thing),
{
    broadcast use {things, recorded_fits};

    reveal(BodyView::operand_type);
}

pub(crate) broadcast proof fn numeric_fits<'a>(
    b: BodyView<'a>,
    wanted: Option<TyView>,
    span: Span,
    thing: Thing,
)
    requires
        fits(b, Thing::Body),
        fits(b, thing),
    ensures
        #[trigger] fits(b.numeric(wanted, span).0, thing),
{
    broadcast use {things, recorded_fits};

    reveal(BodyView::numeric);
}

pub(crate) broadcast proof fn settled_type_fits<'a>(
    b: BodyView<'a>,
    wanted: Option<TyView>,
    span: Span,
    thing: Thing,
)
    requires
        fits(b, Thing::Body),
        fits(b, thing),
    ensures
        #[trigger] fits(b.settled_type(wanted, span).0, thing),
{
    broadcast use {things, recorded_fits};

    reveal(BodyView::settled_type);
}

pub(crate) broadcast proof fn returned_fits<'a>(
    b: BodyView<'a>,
    value: Value,
    span: Span,
    thing: Thing,
)
    requires
        fits(b, Thing::Body),
        fits(b, Thing::Value(value)),
        fits(b, thing),
    ensures
        #[trigger] fits(b.returned(value, span).0, thing),
{
    broadcast use {things, emit_fits, emit_gives};

    reveal(BodyView::returned);
}

pub(crate) broadcast proof fn returned_gives<'a>(
    b: BodyView<'a>,
    value: Value,
    span: Span,
)
    requires
        fits(b, Thing::Body),
        fits(b, Thing::Value(value)),
    ensures
        #[trigger] fits(b.returned(value, span).0, Thing::Value(b.returned(value, span).1)),
{
    broadcast use {things, emit_fits, emit_gives};

    reveal(BodyView::returned);
}

pub(crate) broadcast proof fn coerce_fits<'a>(
    b: BodyView<'a>,
    value: Value,
    wanted: TyView,
    span: Span,
    thing: Thing,
)
    requires
        fits(b, Thing::Body),
        fits(b, Thing::Value(value)),
        fits(b, thing),
    ensures
        #[trigger] fits(b.coerce(value, wanted, span).0, thing),
{
    broadcast use {things, emit_fits, emit_gives};

    reveal(BodyView::coerce);
}

pub(crate) broadcast proof fn coerce_gives<'a>(
    b: BodyView<'a>,
    value: Value,
    wanted: TyView,
    span: Span,
)
    requires
        fits(b, Thing::Body),
        fits(b, Thing::Value(value)),
    ensures
        #[trigger] fits(
            b.coerce(value, wanted, span).0,
            Thing::Value(b.coerce(value, wanted, span).1),
        ),
{
    broadcast use {things, emit_fits, emit_gives};

    reveal(BodyView::coerce);
}

pub(crate) broadcast proof fn tag_test_fits<'a>(
    b: BodyView<'a>,
    subject: Value,
    tag: u32,
    span: Span,
    thing: Thing,
)
    requires
        fits(b, Thing::Body),
        fits(b, Thing::Value(subject)),
        fits(b, thing),
    ensures
        #[trigger] fits(b.tag_test(subject, tag, span).0, thing),
{
    broadcast use {things, emit_fits, emit_gives};

    reveal(BodyView::tag_test);
}

pub(crate) broadcast proof fn tag_test_gives<'a>(
    b: BodyView<'a>,
    subject: Value,
    tag: u32,
    span: Span,
)
    requires
        fits(b, Thing::Body),
        fits(b, Thing::Value(subject)),
    ensures
        #[trigger] fits(
            b.tag_test(subject, tag, span).0,
            Thing::Value(b.tag_test(subject, tag, span).1),
        ),
{
    broadcast use {things, emit_fits, emit_gives};

    reveal(BodyView::tag_test);
}

pub(crate) broadcast proof fn branch_fits<'a>(
    b: BodyView<'a>,
    condition: Value,
    then: BlockId,
    otherwise: BlockId,
    thing: Thing,
)
    requires
        fits(b, Thing::Body),
        fits(b, Thing::Value(condition)),
        fits(b, Thing::Block(then)),
        fits(b, Thing::Block(otherwise)),
        fits(b, thing),
    ensures
        #[trigger] fits(b.branch(condition, then, otherwise), thing),
{
    broadcast use {things, terminate_fits};

    reveal(BodyView::branch);
}

pub(crate) broadcast proof fn jump_with_fits<'a>(
    b: BodyView<'a>,
    block: BlockId,
    value: Value,
    thing: Thing,
)
    requires
        fits(b, Thing::Body),
        fits(b, Thing::Block(block)),
        fits(b, Thing::Value(value)),
        fits(b, thing),
    ensures
        #[trigger] fits(b.jump_with(block, value), thing),
{
    broadcast use {things, terminate_fits};

    reveal(BodyView::jump_with);
}

pub(crate) broadcast proof fn check_fits<'a>(
    b: BodyView<'a>,
    test: Value,
    fail: BlockId,
    span: Span,
    thing: Thing,
)
    requires
        fits(b, Thing::Body),
        fits(b, Thing::Value(test)),
        fits(b, Thing::Block(fail)),
        fits(b, thing),
    ensures
        #[trigger] fits(b.check(test, fail, span), thing),
{
    broadcast use {things, add_block_fits, add_block_gives, branch_fits, switch_to_fits};

    reveal(BodyView::check);
}

pub(crate) broadcast proof fn variant_with_fits<'a>(
    b: BodyView<'a>,
    ty: TyView,
    variant: u32,
    value: Value,
    span: Span,
    thing: Thing,
)
    requires
        fits(b, Thing::Body),
        fits(b, Thing::Value(value)),
        fits(b, thing),
    ensures
        #[trigger] fits(b.variant_with(ty, variant, value, span).0, thing),
{
    broadcast use {things, emit_fits, emit_gives};

    reveal(BodyView::variant_with);
}

pub(crate) broadcast proof fn variant_with_gives<'a>(
    b: BodyView<'a>,
    ty: TyView,
    variant: u32,
    value: Value,
    span: Span,
)
    requires
        fits(b, Thing::Body),
        fits(b, Thing::Value(value)),
    ensures
        #[trigger] fits(
            b.variant_with(ty, variant, value, span).0,
            Thing::Value(b.variant_with(ty, variant, value, span).1),
        ),
{
    broadcast use {things, emit_fits, emit_gives};

    reveal(BodyView::variant_with);
}

pub(crate) broadcast proof fn completed_result_fits<'a>(
    b: BodyView<'a>,
    value: Value,
    result: TyView,
    span: Span,
    thing: Thing,
)
    requires
        fits(b, Thing::Body),
        fits(b, Thing::Value(value)),
        fits(b, thing),
    ensures
        #[trigger] fits(b.completed_result(value, result, span).0, thing),
{
    broadcast use {things, variant_with_fits, variant_with_gives};

    reveal(BodyView::completed_result);
}

pub(crate) broadcast proof fn completed_result_gives<'a>(
    b: BodyView<'a>,
    value: Value,
    result: TyView,
    span: Span,
)
    requires
        fits(b, Thing::Body),
        fits(b, Thing::Value(value)),
    ensures
        #[trigger] fits(
            b.completed_result(value, result, span).0,
            Thing::Value(b.completed_result(value, result, span).1),
        ),
{
    broadcast use {things, variant_with_fits, variant_with_gives};

    reveal(BodyView::completed_result);
}

pub(crate) broadcast proof fn completed_task_fits<'a>(
    b: BodyView<'a>,
    value: Value,
    task: TyView,
    span: Span,
    thing: Thing,
)
    requires
        fits(b, Thing::Body),
        fits(b, Thing::Value(value)),
        fits(b, thing),
    ensures
        #[trigger] fits(b.completed_task(value, task, span).0, thing),
{
    broadcast use {things, emit_fits, emit_gives};

    reveal(BodyView::completed_task);
}

pub(crate) broadcast proof fn completed_task_gives<'a>(
    b: BodyView<'a>,
    value: Value,
    task: TyView,
    span: Span,
)
    requires
        fits(b, Thing::Body),
        fits(b, Thing::Value(value)),
    ensures
        #[trigger] fits(
            b.completed_task(value, task, span).0,
            Thing::Value(b.completed_task(value, task, span).1),
        ),
{
    broadcast use {things, emit_fits, emit_gives};

    reveal(BodyView::completed_task);
}

pub(crate) broadcast proof fn narrowed_fits<'a>(
    b: BodyView<'a>,
    declared: Option<TyView>,
    result: TyView,
    read: InstKindView,
    span: Span,
    thing: Thing,
)
    requires
        fits(b, Thing::Body),
        fits(b, Thing::Kind(read)),
        fits(b, thing),
    ensures
        #[trigger] fits(b.narrowed(declared, result, read, span).0, thing),
{
    broadcast use {things, emit_fits, emit_gives};

    reveal(BodyView::narrowed);
}

pub(crate) broadcast proof fn narrowed_gives<'a>(
    b: BodyView<'a>,
    declared: Option<TyView>,
    result: TyView,
    read: InstKindView,
    span: Span,
)
    requires
        fits(b, Thing::Body),
        fits(b, Thing::Kind(read)),
    ensures
        #[trigger] fits(
            b.narrowed(declared, result, read, span).0,
            Thing::Value(b.narrowed(declared, result, read, span).1),
        ),
{
    broadcast use {things, emit_fits, emit_gives};

    reveal(BodyView::narrowed);
}

pub(crate) broadcast proof fn display_fits<'a>(
    b: BodyView<'a>,
    value: Value,
    span: Span,
    thing: Thing,
)
    requires
        fits(b, Thing::Body),
        fits(b, Thing::Value(value)),
        fits(b, thing),
    ensures
        #[trigger] fits(b.display(value, span).0, thing),
{
    broadcast use {
        things, emit_fits, emit_gives, add_block_fits, add_block_gives, branch_fits, switch_to_fits,
        jump_with_fits, add_block_param_fits, add_block_param_gives, missing_fits, missing_gives,
    };

    reveal(BodyView::display);
}

pub(crate) broadcast proof fn display_gives<'a>(
    b: BodyView<'a>,
    value: Value,
    span: Span,
)
    requires
        fits(b, Thing::Body),
        fits(b, Thing::Value(value)),
    ensures
        #[trigger] fits(b.display(value, span).0, Thing::Value(b.display(value, span).1)),
{
    broadcast use {
        things, emit_fits, emit_gives, add_block_fits, add_block_gives, branch_fits, switch_to_fits,
        jump_with_fits, add_block_param_fits, add_block_param_gives, missing_fits, missing_gives,
    };

    reveal(BodyView::display);
}

pub(crate) broadcast proof fn add_params_fits<'a>(
    b: BodyView<'a>,
    block: BlockId,
    carried: Seq<u32>,
    span: Span,
    count: nat,
    thing: Thing,
)
    requires
        fits(b, Thing::Body),
        fits(b, Thing::Block(block)),
        count <= carried.len(),
        fits(b, thing),
    ensures
        #[trigger] fits(b.add_params(block, carried, span, count), thing),
    decreases count,
{
    broadcast use {things, add_block_param_fits, add_block_param_gives};

    reveal(BodyView::add_params);
    if count > 0 {
        add_params_fits(b, block, carried, span, (count - 1) as nat, Thing::Body);
        add_params_fits(b, block, carried, span, (count - 1) as nat, Thing::Block(block));
        add_params_fits(b, block, carried, span, (count - 1) as nat, thing);
    }
}

pub(crate) broadcast proof fn set_defs_fits<'a>(
    b: BodyView<'a>,
    carried: Seq<u32>,
    values: Seq<Value>,
    count: nat,
    thing: Thing,
)
    requires
        fits(b, Thing::Body),
        fits(b, Thing::Values(values)),
        count <= carried.len(),
        fits(b, thing),
    ensures
        #[trigger] fits(b.set_defs(carried, values, count), thing),
    decreases count,
{
    broadcast use {things, set_def_fits};

    reveal(BodyView::set_defs);
    if count > 0 {
        set_defs_fits(b, carried, values, (count - 1) as nat, Thing::Body);
        set_defs_fits(b, carried, values, (count - 1) as nat, Thing::Values(values));
        set_defs_fits(b, carried, values, (count - 1) as nat, thing);
    }
}

pub(crate) broadcast proof fn bind_params_fits<'a>(
    b: BodyView<'a>,
    block: BlockId,
    carried: Seq<u32>,
    thing: Thing,
)
    requires
        fits(b, Thing::Body),
        fits(b, Thing::Block(block)),
        fits(b, thing),
    ensures
        #[trigger] fits(b.bind_params(block, carried), thing),
{
    broadcast use {things, set_defs_fits};

    reveal(BodyView::bind_params);
}

pub(crate) broadcast proof fn jump_to_fits<'a>(
    b: BodyView<'a>,
    block: BlockId,
    carried: Seq<u32>,
    thing: Thing,
)
    requires
        fits(b, Thing::Body),
        fits(b, Thing::Block(block)),
        fits(b, thing),
    ensures
        #[trigger] fits(b.jump_to(block, carried), thing),
{
    broadcast use {things, terminate_fits};

    reveal(BodyView::jump_to);
}

pub(crate) broadcast proof fn error_test_fits<'a>(
    b: BodyView<'a>,
    result: Value,
    failed: BlockId,
    succeeded: BlockId,
    span: Span,
    thing: Thing,
)
    requires
        fits(b, Thing::Body),
        fits(b, Thing::Value(result)),
        fits(b, Thing::Block(failed)),
        fits(b, Thing::Block(succeeded)),
        fits(b, thing),
    ensures
        #[trigger] fits(b.error_test(result, failed, succeeded, span), thing),
{
    broadcast use {things, tag_test_fits, tag_test_gives, branch_fits};

    reveal(BodyView::error_test);
}

pub(crate) broadcast proof fn payload_fits<'a>(
    b: BodyView<'a>,
    value: Value,
    variant: u32,
    ty: TyView,
    span: Span,
    thing: Thing,
)
    requires
        fits(b, Thing::Body),
        fits(b, Thing::Value(value)),
        fits(b, thing),
    ensures
        #[trigger] fits(b.payload(value, variant, ty, span).0, thing),
{
    broadcast use {things, emit_fits, emit_gives};

    reveal(BodyView::payload);
}

pub(crate) broadcast proof fn payload_gives<'a>(
    b: BodyView<'a>,
    value: Value,
    variant: u32,
    ty: TyView,
    span: Span,
)
    requires
        fits(b, Thing::Body),
        fits(b, Thing::Value(value)),
    ensures
        #[trigger] fits(
            b.payload(value, variant, ty, span).0,
            Thing::Value(b.payload(value, variant, ty, span).1),
        ),
{
    broadcast use {things, emit_fits, emit_gives};

    reveal(BodyView::payload);
}

} // verus!
