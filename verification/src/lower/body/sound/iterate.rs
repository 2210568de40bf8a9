//! That what lowering a body names is there: `for` loops.

use vstd::prelude::*;

use crate::ast::{Binding, Block, Expr};
use crate::inst::Value;
use crate::program::BlockId;
use crate::span::Span;
use crate::ty::TyView;

use super::super::kinds::builtin_kind_view;
use super::super::iterate::{CountedView, Source, collection_source_view};
use super::super::deeper::{Deeper, deeper};
use super::super::BodyView;
use super::leaves::{add_params_fits, bind_params_fits, jump_to_fits};
use super::{
    Thing, add_block_fits, add_block_gives, bind_value_fits, block_fits, collection_is_there,
    declare_fits, declared_type_fits, emit_fits, emit_gives, expr_fits, expr_gives, fits, gap_fits,
    list_is_there, open_fits, pop_loop_fits, push_loop_fits, range_end_is_there, restore_fits,
    reversed_start_is_there, set_def_fits, source_is_there, sturdy, switch_to_fits, table_is_there,
    terminate_fits, things,
};
use super::scopes::close_fits;

verus! {

pub(crate) broadcast proof fn counted_fits<'a>(
    b: BodyView<'a>,
    bindings: Seq<Binding>,
    iterable: Expr,
    span: Span,
    deeper: Deeper<'a>,
    thing: Thing,
)
    requires
        fits(b, Thing::Body),
        sturdy(deeper),
        fits(b, thing),
    ensures
        #[trigger] fits(b.counted(bindings, iterable, span, deeper).0, thing),
{
    broadcast use {
        things, uncounted_fits, uncounted_gives, counter_type_fits, expr_fits, expr_gives,
        declare_fits, counted_down_fits, counted_down_gives, counted_through_fits,
        counted_through_gives,
    };

    reveal(BodyView::counted);
}

pub(crate) broadcast proof fn counted_gives<'a>(
    b: BodyView<'a>,
    bindings: Seq<Binding>,
    iterable: Expr,
    span: Span,
    deeper: Deeper<'a>,
)
    requires
        fits(b, Thing::Body),
        sturdy(deeper),
    ensures
        #[trigger] fits(
            b.counted(bindings, iterable, span, deeper).0,
            Thing::Counter(b.counted(bindings, iterable, span, deeper).1),
        ),
{
    broadcast use {
        things, uncounted_fits, uncounted_gives, counter_type_fits, expr_fits, expr_gives,
        declare_fits, counted_down_fits, counted_down_gives, counted_through_fits,
        counted_through_gives,
    };

    reveal(BodyView::counted);
}

pub(crate) broadcast proof fn uncounted_fits<'a>(
    b: BodyView<'a>,
    span: Span,
    what: Seq<char>,
    thing: Thing,
)
    requires
        fits(b, Thing::Body),
        fits(b, thing),
    ensures
        #[trigger] fits(b.uncounted(span, what).0, thing),
{
    broadcast use {things, gap_fits};

    reveal(BodyView::uncounted);
}

pub(crate) broadcast proof fn uncounted_gives<'a>(
    b: BodyView<'a>,
    span: Span,
    what: Seq<char>,
)
    requires
        fits(b, Thing::Body),
    ensures
        #[trigger] fits(b.uncounted(span, what).0, Thing::Counter(b.uncounted(span, what).1)),
{
    broadcast use {things, gap_fits};

    reveal(BodyView::uncounted);
}

pub(crate) broadcast proof fn counter_type_fits<'a>(
    b: BodyView<'a>,
    start: Expr,
    span: Span,
    thing: Thing,
)
    requires
        fits(b, Thing::Body),
        fits(b, thing),
    ensures
        #[trigger] fits(b.counter_type(start, span).0, thing),
{
    broadcast use {things, declared_type_fits};

    reveal(BodyView::counter_type);
}

pub(crate) broadcast proof fn counted_down_fits<'a>(
    b: BodyView<'a>,
    callee: Expr,
    span: Span,
    deeper: Deeper<'a>,
    thing: Thing,
)
    requires
        fits(b, Thing::Body),
        sturdy(deeper),
        fits(b, thing),
    ensures
        #[trigger] fits(b.counted_down(callee, span, deeper).0, thing),
{
    broadcast use {
        things, uncounted_fits, uncounted_gives, counter_type_fits, expr_fits, expr_gives,
        declare_fits,
    };

    reveal(BodyView::counted_down);
}

pub(crate) broadcast proof fn counted_down_gives<'a>(
    b: BodyView<'a>,
    callee: Expr,
    span: Span,
    deeper: Deeper<'a>,
)
    requires
        fits(b, Thing::Body),
        sturdy(deeper),
    ensures
        #[trigger] fits(
            b.counted_down(callee, span, deeper).0,
            Thing::Counter(b.counted_down(callee, span, deeper).1),
        ),
{
    broadcast use {
        things, uncounted_fits, uncounted_gives, counter_type_fits, expr_fits, expr_gives,
        declare_fits,
    };

    reveal(BodyView::counted_down);
}

pub(crate) broadcast proof fn counted_through_fits<'a>(
    b: BodyView<'a>,
    iterable: Expr,
    indexed: bool,
    span: Span,
    deeper: Deeper<'a>,
    thing: Thing,
)
    requires
        fits(b, Thing::Body),
        sturdy(deeper),
        fits(b, thing),
    ensures
        #[trigger] fits(b.counted_through(iterable, indexed, span, deeper).0, thing),
{
    broadcast use {
        things, expr_fits, expr_gives, uncounted_fits, uncounted_gives, emit_fits, emit_gives,
        declare_fits,
    };

    reveal(BodyView::counted_through);
    let (after, receiver) = b.expr(iterable, None, deeper);
    assert(fits(after, Thing::Value(receiver)));
    let kind = builtin_kind_view(after.type_at(receiver));
    if collection_source_view(kind, receiver, indexed) is Some {
        collection_is_there(after, kind, receiver, indexed);
    }
}

pub(crate) broadcast proof fn counted_through_gives<'a>(
    b: BodyView<'a>,
    iterable: Expr,
    indexed: bool,
    span: Span,
    deeper: Deeper<'a>,
)
    requires
        fits(b, Thing::Body),
        sturdy(deeper),
    ensures
        #[trigger] fits(
            b.counted_through(iterable, indexed, span, deeper).0,
            Thing::Counter(b.counted_through(iterable, indexed, span, deeper).1),
        ),
{
    broadcast use {
        things, expr_fits, expr_gives, uncounted_fits, uncounted_gives, emit_fits, emit_gives,
        declare_fits,
    };

    reveal(BodyView::counted_through);
    let (after, receiver) = b.expr(iterable, None, deeper);
    assert(fits(after, Thing::Value(receiver)));
    let kind = builtin_kind_view(after.type_at(receiver));
    if collection_source_view(kind, receiver, indexed) is Some {
        collection_is_there(after, kind, receiver, indexed);
    }
}

pub(crate) broadcast proof fn for_stmt_fits<'a>(
    b: BodyView<'a>,
    label: Option<Seq<char>>,
    bindings: Seq<Binding>,
    iterable: Expr,
    body: Block,
    span: Span,
    deeper: Deeper<'a>,
    thing: Thing,
)
    requires
        fits(b, Thing::Body),
        sturdy(deeper),
        fits(b, thing),
    ensures
        #[trigger] fits(b.for_stmt(label, bindings, iterable, body, span, deeper), thing),
{
    broadcast use {
        things, add_block_fits, add_block_gives, open_fits, counted_fits, counted_gives,
        for_counted_fits,
    };

    reveal(BodyView::for_stmt);
}

pub(crate) broadcast proof fn for_counted_fits<'a>(
    b: BodyView<'a>,
    label: Option<Seq<char>>,
    bindings: Seq<Binding>,
    counted: CountedView,
    carried: Seq<u32>,
    header: BlockId,
    body: Block,
    span: Span,
    deeper: Deeper<'a>,
    thing: Thing,
)
    requires
        fits(b, Thing::Body),
        sturdy(deeper),
        fits(b, Thing::Counted(counted)),
        fits(b, Thing::Block(header)),
        fits(b, thing),
    ensures
        #[trigger] fits(
            b.for_counted(label, bindings, counted, carried, header, body, span, deeper),
            thing,
        ),
{
    broadcast use {
        things, set_def_fits, jump_to_fits, switch_to_fits, add_params_fits, bind_params_fits,
        goes_on_fits, goes_on_gives, add_block_fits, add_block_gives, terminate_fits, restore_fits,
        bind_counted_fits, push_loop_fits, block_fits, pop_loop_fits, stop_at_last_fits,
        count_on_fits, count_on_gives, close_fits,
    };

    reveal(BodyView::for_counted);
}

pub(crate) broadcast proof fn stop_at_last_fits<'a>(
    b: BodyView<'a>,
    source: Source,
    current: Value,
    exit: BlockId,
    carried: Seq<u32>,
    span: Span,
    thing: Thing,
)
    requires
        fits(b, Thing::Body),
        fits(b, Thing::Source(source)),
        fits(b, Thing::Value(current)),
        fits(b, Thing::Block(exit)),
        fits(b, thing),
    ensures
        #[trigger] fits(b.stop_at_last(source, current, exit, carried, span), thing),
{
    broadcast use {
        things, emit_fits, emit_gives, add_block_fits, add_block_gives, terminate_fits,
        switch_to_fits,
    };

    reveal(BodyView::stop_at_last);
}

pub(crate) broadcast proof fn count_on_fits<'a>(
    b: BodyView<'a>,
    source: Source,
    current: Value,
    element: TyView,
    span: Span,
    thing: Thing,
)
    requires
        fits(b, Thing::Body),
        fits(b, Thing::Source(source)),
        fits(b, Thing::Value(current)),
        fits(b, thing),
    ensures
        #[trigger] fits(b.count_on(source, current, element, span).0, thing),
{
    broadcast use {things, emit_fits, emit_gives};

    reveal(BodyView::count_on);
}

pub(crate) broadcast proof fn count_on_gives<'a>(
    b: BodyView<'a>,
    source: Source,
    current: Value,
    element: TyView,
    span: Span,
)
    requires
        fits(b, Thing::Body),
        fits(b, Thing::Source(source)),
        fits(b, Thing::Value(current)),
    ensures
        #[trigger] fits(
            b.count_on(source, current, element, span).0,
            Thing::Value(b.count_on(source, current, element, span).1),
        ),
{
    broadcast use {things, emit_fits, emit_gives};

    reveal(BodyView::count_on);
}

pub(crate) broadcast proof fn goes_on_fits<'a>(
    b: BodyView<'a>,
    source: Source,
    current: Value,
    span: Span,
    thing: Thing,
)
    requires
        fits(b, Thing::Body),
        fits(b, Thing::Source(source)),
        fits(b, Thing::Value(current)),
        fits(b, thing),
    ensures
        #[trigger] fits(b.goes_on(source, current, span).0, thing),
{
    broadcast use {things, emit_fits, emit_gives};

    reveal(BodyView::goes_on);
    match source {
        Source::Range { last, inclusive } => {
            range_end_is_there(b, source);
        },
        Source::Reversed { first, inclusive } => {
            reversed_start_is_there(b, source);
        },
        Source::List { receiver, indexed } => {
            list_is_there(b, source);
        },
        Source::Table(receiver) => {
            table_is_there(b, source);
        },
    }
}

pub(crate) broadcast proof fn goes_on_gives<'a>(
    b: BodyView<'a>,
    source: Source,
    current: Value,
    span: Span,
)
    requires
        fits(b, Thing::Body),
        fits(b, Thing::Source(source)),
        fits(b, Thing::Value(current)),
    ensures
        #[trigger] fits(
            b.goes_on(source, current, span).0,
            Thing::Value(b.goes_on(source, current, span).1),
        ),
{
    broadcast use {things, emit_fits, emit_gives};

    reveal(BodyView::goes_on);
    match source {
        Source::Range { last, inclusive } => {
            range_end_is_there(b, source);
        },
        Source::Reversed { first, inclusive } => {
            reversed_start_is_there(b, source);
        },
        Source::List { receiver, indexed } => {
            list_is_there(b, source);
        },
        Source::Table(receiver) => {
            table_is_there(b, source);
        },
    }
}

pub(crate) broadcast proof fn bind_counted_fits<'a>(
    b: BodyView<'a>,
    counted: CountedView,
    current: Value,
    bindings: Seq<Binding>,
    step: BlockId,
    leaving: Seq<Value>,
    span: Span,
    deeper: Deeper<'a>,
    thing: Thing,
)
    requires
        fits(b, Thing::Body),
        sturdy(deeper),
        fits(b, Thing::Counted(counted)),
        fits(b, Thing::Value(current)),
        fits(b, Thing::Block(step)),
        fits(b, Thing::Values(leaving)),
        fits(b, thing),
    ensures
        #[trigger] fits(
            b.bind_counted(counted, current, bindings, step, leaving, span, deeper),
            thing,
        ),
{
    broadcast use {
        things, emit_fits, emit_gives, bind_each_fits, add_block_fits, add_block_gives,
        terminate_fits, switch_to_fits, bind_entries_fits,
    };

    reveal(BodyView::bind_counted);
    let source = counted.source;
    source_is_there(b, counted);
    match source {
        Source::Range { last, inclusive } => {
            range_end_is_there(b, source);
        },
        Source::Reversed { first, inclusive } => {
            reversed_start_is_there(b, source);
        },
        Source::List { receiver, indexed } => {
            list_is_there(b, source);
        },
        Source::Table(receiver) => {
            table_is_there(b, source);
        },
    }
}

pub(crate) broadcast proof fn bind_each_fits<'a>(
    b: BodyView<'a>,
    bindings: Seq<Binding>,
    values: Seq<Value>,
    span: Span,
    deeper: Deeper<'a>,
    count: nat,
    thing: Thing,
)
    requires
        fits(b, Thing::Body),
        sturdy(deeper),
        fits(b, Thing::Values(values)),
        count <= bindings.len(),
        fits(b, thing),
    ensures
        #[trigger] fits(b.bind_each(bindings, values, span, deeper, count), thing),
    decreases count,
{
    broadcast use {things, bind_value_fits};

    reveal(BodyView::bind_each);
    if count > 0 {
        bind_each_fits(b, bindings, values, span, deeper, (count - 1) as nat, Thing::Body);
        bind_each_fits(
            b,
            bindings,
            values,
            span,
            deeper,
            (count - 1) as nat,
            Thing::Values(values),
        );
        bind_each_fits(b, bindings, values, span, deeper, (count - 1) as nat, thing);
    }
}

pub(crate) broadcast proof fn bind_entries_fits<'a>(
    b: BodyView<'a>,
    bindings: Seq<Binding>,
    receiver: Value,
    current: Value,
    held: Seq<TyView>,
    span: Span,
    deeper: Deeper<'a>,
    count: nat,
    thing: Thing,
)
    requires
        fits(b, Thing::Body),
        sturdy(deeper),
        fits(b, Thing::Value(receiver)),
        fits(b, Thing::Value(current)),
        count <= bindings.len(),
        fits(b, thing),
    ensures
        #[trigger] fits(
            b.bind_entries(bindings, receiver, current, held, span, deeper, count),
            thing,
        ),
    decreases count,
{
    broadcast use {things, emit_fits, emit_gives, bind_value_fits};

    reveal(BodyView::bind_entries);
    if count > 0 {
        bind_entries_fits(
            b,
            bindings,
            receiver,
            current,
            held,
            span,
            deeper,
            (count - 1) as nat,
            Thing::Body,
        );
        bind_entries_fits(
            b,
            bindings,
            receiver,
            current,
            held,
            span,
            deeper,
            (count - 1) as nat,
            Thing::Value(receiver),
        );
        bind_entries_fits(
            b,
            bindings,
            receiver,
            current,
            held,
            span,
            deeper,
            (count - 1) as nat,
            Thing::Value(current),
        );
        bind_entries_fits(
            b,
            bindings,
            receiver,
            current,
            held,
            span,
            deeper,
            (count - 1) as nat,
            thing,
        );
    }
}

} // verus!
