//! That what lowering a body names is there: leaving scopes.

use vstd::prelude::*;

use crate::ast::Expr;
use crate::inst::Value;
use crate::span::Span;
use crate::ty::TyView;

use super::super::deeper::{Deeper, deeper};
use super::super::{BodyView, Cleanup};
use super::leaves::{
    branch_fits, jump_to_fits, missing_fits, missing_gives, payload_fits, payload_gives,
    returned_fits, returned_gives, tag_test_fits, tag_test_gives, unit_fits, unit_gives,
    variant_with_fits, variant_with_gives,
};
use super::{
    Thing, add_block_fits, add_block_gives, begin_constant_fits, block_fits, declared_type_fits,
    drop_scope_fits, emit_fits, emit_gives, end_constant_fits, expr_fits, expr_gives, fits,
    gap_fits, sturdy, switch_to_fits, terminate_fits, things,
};

verus! {

pub(crate) broadcast proof fn close_fits<'a>(
    b: BodyView<'a>,
    deeper: Deeper<'a>,
    thing: Thing,
)
    requires
        fits(b, Thing::Body),
        sturdy(deeper),
        fits(b, thing),
    ensures
        #[trigger] fits(b.close(deeper), thing),
{
    broadcast use {things, unwind_fits, drop_scope_fits};

    reveal(BodyView::close);
}

pub(crate) broadcast proof fn constant_fits<'a>(
    b: BodyView<'a>,
    name: Seq<char>,
    wanted: Option<TyView>,
    span: Span,
    deeper: Deeper<'a>,
    thing: Thing,
)
    requires
        fits(b, Thing::Body),
        sturdy(deeper),
        fits(b, thing),
    ensures
        #[trigger] fits(b.constant(name, wanted, span, deeper).0, thing),
{
    broadcast use {
        things, missing_fits, missing_gives, declared_type_fits, begin_constant_fits, expr_fits,
        expr_gives, end_constant_fits,
    };

    reveal(BodyView::constant);
}

pub(crate) broadcast proof fn constant_gives<'a>(
    b: BodyView<'a>,
    name: Seq<char>,
    wanted: Option<TyView>,
    span: Span,
    deeper: Deeper<'a>,
)
    requires
        fits(b, Thing::Body),
        sturdy(deeper),
    ensures
        #[trigger] fits(
            b.constant(name, wanted, span, deeper).0,
            Thing::Value(b.constant(name, wanted, span, deeper).1),
        ),
{
    broadcast use {
        things, missing_fits, missing_gives, declared_type_fits, begin_constant_fits, expr_fits,
        expr_gives, end_constant_fits,
    };

    reveal(BodyView::constant);
}

pub(crate) broadcast proof fn stored_fits<'a>(
    b: BodyView<'a>,
    expr: Expr,
    wanted: Option<TyView>,
    deeper: Deeper<'a>,
    thing: Thing,
)
    requires
        fits(b, Thing::Body),
        sturdy(deeper),
        fits(b, thing),
    ensures
        #[trigger] fits(b.stored(expr, wanted, deeper).0, thing),
{
    broadcast use {things, expr_fits, expr_gives, emit_fits, emit_gives};

    reveal(BodyView::stored);
}

pub(crate) broadcast proof fn stored_gives<'a>(
    b: BodyView<'a>,
    expr: Expr,
    wanted: Option<TyView>,
    deeper: Deeper<'a>,
)
    requires
        fits(b, Thing::Body),
        sturdy(deeper),
    ensures
        #[trigger] fits(
            b.stored(expr, wanted, deeper).0,
            Thing::Value(b.stored(expr, wanted, deeper).1),
        ),
{
    broadcast use {things, expr_fits, expr_gives, emit_fits, emit_gives};

    reveal(BodyView::stored);
}

pub(crate) broadcast proof fn raise_fits<'a>(
    b: BodyView<'a>,
    thrown: Value,
    span: Span,
    deeper: Deeper<'a>,
    thing: Thing,
)
    requires
        fits(b, Thing::Body),
        sturdy(deeper),
        fits(b, Thing::Value(thrown)),
        fits(b, thing),
    ensures
        #[trigger] fits(b.raise(thrown, span, deeper), thing),
{
    broadcast use {
        things, unwind_from_fits, terminate_fits, gap_fits, variant_with_fits, variant_with_gives,
    };

    reveal(BodyView::raise);
}

pub(crate) broadcast proof fn leave_fits<'a>(
    b: BodyView<'a>,
    label: Option<Seq<char>>,
    continues: bool,
    span: Span,
    deeper: Deeper<'a>,
    thing: Thing,
)
    requires
        fits(b, Thing::Body),
        sturdy(deeper),
        fits(b, thing),
    ensures
        #[trigger] fits(b.leave(label, continues, span, deeper), thing),
{
    broadcast use {things, gap_fits, unwind_from_fits, jump_to_fits};

    reveal(BodyView::leave);
}

pub(crate) broadcast proof fn ret_fits<'a>(
    b: BodyView<'a>,
    value: Option<&'a Expr>,
    span: Span,
    deeper: Deeper<'a>,
    thing: Thing,
)
    requires
        fits(b, Thing::Body),
        sturdy(deeper),
        fits(b, thing),
    ensures
        #[trigger] fits(b.ret(value, span, deeper), thing),
{
    broadcast use {
        things, stored_fits, stored_gives, unit_fits, unit_gives, unwind_from_fits, returned_fits,
        returned_gives, terminate_fits,
    };

    reveal(BodyView::ret);
}

pub(crate) broadcast proof fn caught_or_raised_fits<'a>(
    b: BodyView<'a>,
    outcome: Value,
    result: TyView,
    span: Span,
    deeper: Deeper<'a>,
    thing: Thing,
)
    requires
        fits(b, Thing::Body),
        sturdy(deeper),
        fits(b, Thing::Value(outcome)),
        fits(b, thing),
    ensures
        #[trigger] fits(b.caught_or_raised(outcome, result, span, deeper).0, thing),
{
    broadcast use {
        things, tag_test_fits, tag_test_gives, add_block_fits, add_block_gives, branch_fits,
        switch_to_fits, payload_fits, payload_gives, raise_fits,
    };

    reveal(BodyView::caught_or_raised);
}

pub(crate) broadcast proof fn caught_or_raised_gives<'a>(
    b: BodyView<'a>,
    outcome: Value,
    result: TyView,
    span: Span,
    deeper: Deeper<'a>,
)
    requires
        fits(b, Thing::Body),
        sturdy(deeper),
        fits(b, Thing::Value(outcome)),
    ensures
        #[trigger] fits(
            b.caught_or_raised(outcome, result, span, deeper).0,
            Thing::Value(b.caught_or_raised(outcome, result, span, deeper).1),
        ),
{
    broadcast use {
        things, tag_test_fits, tag_test_gives, add_block_fits, add_block_gives, branch_fits,
        switch_to_fits, payload_fits, payload_gives, raise_fits,
    };

    reveal(BodyView::caught_or_raised);
}

proof fn cleaning_fits<'a>(
    b: BodyView<'a>,
    held: Seq<Cleanup<'a>>,
    deeper: Deeper<'a>,
    count: nat,
    thing: Thing,
)
    requires
        fits(b, Thing::Body),
        sturdy(deeper),
        fits(b, thing),
    ensures
        fits(b.clean(held, deeper, count), thing),
    decreases count,
{
    broadcast use {gap_fits, expr_fits, block_fits};

    reveal(BodyView::clean);
    if count > 0 {
        match held[count - 1] {
            Cleanup::Deferred(call) => {
                let (after, _) = b.expr(*call, None, deeper);
                assert(fits(after, thing));
                assert(fits(after, Thing::Body));
                cleaning_fits(after, held, deeper, (count - 1) as nat, thing);
            },
            Cleanup::Finally(block) => {
                let after = b.block(*block, deeper);
                assert(fits(after, thing));
                assert(fits(after, Thing::Body));
                cleaning_fits(after, held, deeper, (count - 1) as nat, thing);
            },
        }
    }
}

pub(crate) broadcast proof fn unwind_fits<'a>(
    b: BodyView<'a>,
    frame: nat,
    deeper: Deeper<'a>,
    thing: Thing,
)
    requires
        fits(b, Thing::Body),
        sturdy(deeper),
        fits(b, thing),
    ensures
        #[trigger] fits(b.unwind(frame, deeper), thing),
{
    reveal(BodyView::unwind);
    let held = b.cleanups(frame);
    cleaning_fits(b, held, deeper, held.len(), thing);
}

proof fn unwinding_fits<'a>(
    b: BodyView<'a>,
    depth: nat,
    top: nat,
    deeper: Deeper<'a>,
    thing: Thing,
)
    requires
        fits(b, Thing::Body),
        sturdy(deeper),
        fits(b, thing),
    ensures
        fits(b.unwind_between(depth, top, deeper), thing),
    decreases top,
{
    reveal(BodyView::unwind_between);
    if top > depth {
        let inner = (top - 1) as nat;
        unwind_fits(b, inner, deeper, thing);
        unwind_fits(b, inner, deeper, Thing::Body);
        unwinding_fits(b.unwind(inner, deeper), depth, inner, deeper, thing);
    }
}

pub(crate) broadcast proof fn unwind_from_fits<'a>(
    b: BodyView<'a>,
    depth: nat,
    deeper: Deeper<'a>,
    thing: Thing,
)
    requires
        fits(b, Thing::Body),
        sturdy(deeper),
        fits(b, thing),
    ensures
        #[trigger] fits(b.unwind_from(depth, deeper), thing),
{
    reveal(BodyView::unwind_from);
    unwinding_fits(b, depth, b.depth(), deeper, thing);
}

} // verus!
