//! That what lowering a body names is there: constructors.

use vstd::prelude::*;

use crate::ast::{Expr, FieldInit, MapEntry};
use crate::inst::Value;
use crate::span::Span;
use crate::ty::TyView;

use super::super::kinds::optional;
use super::super::deeper::{Deeper, deeper};
use super::super::given::Given;
use super::super::BodyView;
use super::calls::{call_fits, call_gives, pass_each_fits, pass_each_gives};
use super::leaves::{
    branch_fits, coerce_fits, coerce_gives, jump_with_fits, missing_fits, missing_gives,
    narrowed_fits, narrowed_gives, settled_fits, settled_gives, settled_type_fits,
};
use super::{
    Thing, add_block_fits, add_block_gives, add_block_param_fits, add_block_param_gives, emit_fits,
    emit_gives, expr_fits, expr_gives, fits, recorded_fits, sturdy, switch_to_fits, things,
};
use super::scopes::{stored_fits, stored_gives};

verus! {

pub(crate) broadcast proof fn record_fits<'a>(
    b: BodyView<'a>,
    path: Seq<String>,
    fields: Seq<FieldInit>,
    wanted: Option<TyView>,
    span: Span,
    deeper: Deeper<'a>,
    thing: Thing,
)
    requires
        fits(b, Thing::Body),
        sturdy(deeper),
        fits(b, thing),
    ensures
        #[trigger] fits(b.record(path, fields, wanted, span, deeper).0, thing),
{
    broadcast use {
        things, recorded_fits, missing_fits, missing_gives, construct_record_fits,
        construct_record_gives, field_values_fits, field_values_gives, default_fields_fits,
        default_fields_gives, emit_fits, emit_gives,
    };

    reveal(BodyView::record);
}

pub(crate) broadcast proof fn record_gives<'a>(
    b: BodyView<'a>,
    path: Seq<String>,
    fields: Seq<FieldInit>,
    wanted: Option<TyView>,
    span: Span,
    deeper: Deeper<'a>,
)
    requires
        fits(b, Thing::Body),
        sturdy(deeper),
    ensures
        #[trigger] fits(
            b.record(path, fields, wanted, span, deeper).0,
            Thing::Value(b.record(path, fields, wanted, span, deeper).1),
        ),
{
    broadcast use {
        things, recorded_fits, missing_fits, missing_gives, construct_record_fits,
        construct_record_gives, field_values_fits, field_values_gives, default_fields_fits,
        default_fields_gives, emit_fits, emit_gives,
    };

    reveal(BodyView::record);
}

pub(crate) broadcast proof fn field_values_fits<'a>(
    b: BodyView<'a>,
    fields: Seq<FieldInit>,
    slots: Seq<Option<usize>>,
    declared: Seq<(Seq<char>, TyView)>,
    deeper: Deeper<'a>,
    count: nat,
    thing: Thing,
)
    requires
        fits(b, Thing::Body),
        sturdy(deeper),
        count <= fields.len(),
        fits(b, thing),
    ensures
        #[trigger] fits(b.field_values(fields, slots, declared, deeper, count).0, thing),
    decreases count,
{
    broadcast use {things, stored_fits, stored_gives};

    reveal(BodyView::field_values);
    if count > 0 {
        field_values_fits(b, fields, slots, declared, deeper, (count - 1) as nat, Thing::Body);
        field_values_fits(b, fields, slots, declared, deeper, (count - 1) as nat, thing);
        field_values_gives(b, fields, slots, declared, deeper, (count - 1) as nat);
    }
}

pub(crate) broadcast proof fn field_values_gives<'a>(
    b: BodyView<'a>,
    fields: Seq<FieldInit>,
    slots: Seq<Option<usize>>,
    declared: Seq<(Seq<char>, TyView)>,
    deeper: Deeper<'a>,
    count: nat,
)
    requires
        fits(b, Thing::Body),
        sturdy(deeper),
        count <= fields.len(),
    ensures
        #[trigger] fits(
            b.field_values(fields, slots, declared, deeper, count).0,
            Thing::Values(b.field_values(fields, slots, declared, deeper, count).1),
        ),
    decreases count,
{
    broadcast use {things, stored_fits, stored_gives};

    reveal(BodyView::field_values);
    if count > 0 {
        field_values_fits(b, fields, slots, declared, deeper, (count - 1) as nat, Thing::Body);
        field_values_gives(b, fields, slots, declared, deeper, (count - 1) as nat);
    }
}

pub(crate) broadcast proof fn default_fields_fits<'a>(
    b: BodyView<'a>,
    ty: TyView,
    declared: Seq<(Seq<char>, TyView)>,
    filled: Seq<Option<Value>>,
    limit: nat,
    span: Span,
    deeper: Deeper<'a>,
    count: nat,
    thing: Thing,
)
    requires
        fits(b, Thing::Body),
        sturdy(deeper),
        fits(b, Thing::Options(filled)),
        count <= filled.len(),
        fits(b, thing),
    ensures
        #[trigger] fits(
            b.default_fields(ty, declared, filled, limit, span, deeper, count).0,
            thing,
        ),
    decreases count,
{
    broadcast use {things, stored_fits, stored_gives, emit_fits, emit_gives};

    reveal(BodyView::default_fields);
    if count > 0 {
        default_fields_fits(
            b,
            ty,
            declared,
            filled,
            limit,
            span,
            deeper,
            (count - 1) as nat,
            Thing::Body,
        );
        default_fields_fits(
            b,
            ty,
            declared,
            filled,
            limit,
            span,
            deeper,
            (count - 1) as nat,
            Thing::Options(filled),
        );
        default_fields_fits(
            b,
            ty,
            declared,
            filled,
            limit,
            span,
            deeper,
            (count - 1) as nat,
            thing,
        );
        default_fields_gives(b, ty, declared, filled, limit, span, deeper, (count - 1) as nat);
    }
}

pub(crate) broadcast proof fn default_fields_gives<'a>(
    b: BodyView<'a>,
    ty: TyView,
    declared: Seq<(Seq<char>, TyView)>,
    filled: Seq<Option<Value>>,
    limit: nat,
    span: Span,
    deeper: Deeper<'a>,
    count: nat,
)
    requires
        fits(b, Thing::Body),
        sturdy(deeper),
        fits(b, Thing::Options(filled)),
        count <= filled.len(),
    ensures
        #[trigger] fits(
            b.default_fields(ty, declared, filled, limit, span, deeper, count).0,
            Thing::Values(b.default_fields(ty, declared, filled, limit, span, deeper, count).1),
        ),
    decreases count,
{
    broadcast use {things, stored_fits, stored_gives, emit_fits, emit_gives};

    reveal(BodyView::default_fields);
    if count > 0 {
        default_fields_fits(
            b,
            ty,
            declared,
            filled,
            limit,
            span,
            deeper,
            (count - 1) as nat,
            Thing::Body,
        );
        default_fields_fits(
            b,
            ty,
            declared,
            filled,
            limit,
            span,
            deeper,
            (count - 1) as nat,
            Thing::Options(filled),
        );
        default_fields_gives(b, ty, declared, filled, limit, span, deeper, (count - 1) as nat);
    }
}

pub(crate) broadcast proof fn construct_record_fits<'a>(
    b: BodyView<'a>,
    ty: TyView,
    variant: u32,
    fields: Seq<FieldInit>,
    span: Span,
    deeper: Deeper<'a>,
    thing: Thing,
)
    requires
        fits(b, Thing::Body),
        sturdy(deeper),
        fits(b, thing),
    ensures
        #[trigger] fits(b.construct_record(ty, variant, fields, span, deeper).0, thing),
{
    broadcast use {
        things, missing_fits, missing_gives, named_values_fits, named_values_gives, emit_fits,
        emit_gives,
    };

    reveal(BodyView::construct_record);
}

pub(crate) broadcast proof fn construct_record_gives<'a>(
    b: BodyView<'a>,
    ty: TyView,
    variant: u32,
    fields: Seq<FieldInit>,
    span: Span,
    deeper: Deeper<'a>,
)
    requires
        fits(b, Thing::Body),
        sturdy(deeper),
    ensures
        #[trigger] fits(
            b.construct_record(ty, variant, fields, span, deeper).0,
            Thing::Value(b.construct_record(ty, variant, fields, span, deeper).1),
        ),
{
    broadcast use {
        things, missing_fits, missing_gives, named_values_fits, named_values_gives, emit_fits,
        emit_gives,
    };

    reveal(BodyView::construct_record);
}

pub(crate) broadcast proof fn named_values_fits<'a>(
    b: BodyView<'a>,
    fields: Seq<FieldInit>,
    slots: Seq<Option<usize>>,
    carried: Seq<TyView>,
    deeper: Deeper<'a>,
    count: nat,
    thing: Thing,
)
    requires
        fits(b, Thing::Body),
        sturdy(deeper),
        count <= fields.len(),
        fits(b, thing),
    ensures
        #[trigger] fits(b.named_values(fields, slots, carried, deeper, count).0, thing),
    decreases count,
{
    broadcast use {things, expr_fits, expr_gives};

    reveal(BodyView::named_values);
    if count > 0 {
        named_values_fits(b, fields, slots, carried, deeper, (count - 1) as nat, Thing::Body);
        named_values_fits(b, fields, slots, carried, deeper, (count - 1) as nat, thing);
        named_values_gives(b, fields, slots, carried, deeper, (count - 1) as nat);
    }
}

pub(crate) broadcast proof fn named_values_gives<'a>(
    b: BodyView<'a>,
    fields: Seq<FieldInit>,
    slots: Seq<Option<usize>>,
    carried: Seq<TyView>,
    deeper: Deeper<'a>,
    count: nat,
)
    requires
        fits(b, Thing::Body),
        sturdy(deeper),
        count <= fields.len(),
    ensures
        #[trigger] fits(
            b.named_values(fields, slots, carried, deeper, count).0,
            Thing::Values(b.named_values(fields, slots, carried, deeper, count).1),
        ),
    decreases count,
{
    broadcast use {things, expr_fits, expr_gives};

    reveal(BodyView::named_values);
    if count > 0 {
        named_values_fits(b, fields, slots, carried, deeper, (count - 1) as nat, Thing::Body);
        named_values_gives(b, fields, slots, carried, deeper, (count - 1) as nat);
    }
}

pub(crate) broadcast proof fn construct_fits<'a>(
    b: BodyView<'a>,
    ty: TyView,
    variant: u32,
    args: Seq<Given<'a>>,
    span: Span,
    deeper: Deeper<'a>,
    thing: Thing,
)
    requires
        fits(b, Thing::Body),
        sturdy(deeper),
        fits(b, thing),
    ensures
        #[trigger] fits(b.construct(ty, variant, args, span, deeper).0, thing),
{
    broadcast use {
        things, missing_fits, missing_gives, pass_each_fits, pass_each_gives, emit_fits, emit_gives,
    };

    reveal(BodyView::construct);
}

pub(crate) broadcast proof fn construct_gives<'a>(
    b: BodyView<'a>,
    ty: TyView,
    variant: u32,
    args: Seq<Given<'a>>,
    span: Span,
    deeper: Deeper<'a>,
)
    requires
        fits(b, Thing::Body),
        sturdy(deeper),
    ensures
        #[trigger] fits(
            b.construct(ty, variant, args, span, deeper).0,
            Thing::Value(b.construct(ty, variant, args, span, deeper).1),
        ),
{
    broadcast use {
        things, missing_fits, missing_gives, pass_each_fits, pass_each_gives, emit_fits, emit_gives,
    };

    reveal(BodyView::construct);
}

pub(crate) broadcast proof fn field_fits<'a>(
    b: BodyView<'a>,
    receiver: Expr,
    name: Seq<char>,
    optional: bool,
    span: Span,
    deeper: Deeper<'a>,
    thing: Thing,
)
    requires
        fits(b, Thing::Body),
        sturdy(deeper),
        fits(b, thing),
    ensures
        #[trigger] fits(b.field(receiver, name, optional, span, deeper).0, thing),
{
    broadcast use {
        things, empty_variant_fits, emit_fits, emit_gives, expr_fits, expr_gives, recorded_fits,
        optional_field_fits, optional_field_gives, plain_field_fits, plain_field_gives,
    };

    reveal(BodyView::field);
}

pub(crate) broadcast proof fn field_gives<'a>(
    b: BodyView<'a>,
    receiver: Expr,
    name: Seq<char>,
    optional: bool,
    span: Span,
    deeper: Deeper<'a>,
)
    requires
        fits(b, Thing::Body),
        sturdy(deeper),
    ensures
        #[trigger] fits(
            b.field(receiver, name, optional, span, deeper).0,
            Thing::Value(b.field(receiver, name, optional, span, deeper).1),
        ),
{
    broadcast use {
        things, empty_variant_fits, emit_fits, emit_gives, expr_fits, expr_gives, recorded_fits,
        optional_field_fits, optional_field_gives, plain_field_fits, plain_field_gives,
    };

    reveal(BodyView::field);
}

pub(crate) broadcast proof fn empty_variant_fits<'a>(
    b: BodyView<'a>,
    receiver: Expr,
    name: Seq<char>,
    span: Span,
    thing: Thing,
)
    requires
        fits(b, Thing::Body),
        fits(b, thing),
    ensures
        #[trigger] fits(b.empty_variant(receiver, name, span).0, thing),
{
    broadcast use {things, recorded_fits};

    reveal(BodyView::empty_variant);
}

pub(crate) broadcast proof fn plain_field_fits<'a>(
    b: BodyView<'a>,
    object: Value,
    name: Seq<char>,
    result: TyView,
    span: Span,
    thing: Thing,
)
    requires
        fits(b, Thing::Body),
        fits(b, Thing::Value(object)),
        fits(b, thing),
    ensures
        #[trigger] fits(b.plain_field(object, name, result, span).0, thing),
{
    broadcast use {
        things, settled_fits, settled_gives, emit_fits, emit_gives, missing_fits, missing_gives,
        narrowed_fits, narrowed_gives,
    };

    reveal(BodyView::plain_field);
}

pub(crate) broadcast proof fn plain_field_gives<'a>(
    b: BodyView<'a>,
    object: Value,
    name: Seq<char>,
    result: TyView,
    span: Span,
)
    requires
        fits(b, Thing::Body),
        fits(b, Thing::Value(object)),
    ensures
        #[trigger] fits(
            b.plain_field(object, name, result, span).0,
            Thing::Value(b.plain_field(object, name, result, span).1),
        ),
{
    broadcast use {
        things, settled_fits, settled_gives, emit_fits, emit_gives, missing_fits, missing_gives,
        narrowed_fits, narrowed_gives,
    };

    reveal(BodyView::plain_field);
}

pub(crate) broadcast proof fn optional_field_fits<'a>(
    b: BodyView<'a>,
    object: Value,
    name: Seq<char>,
    result: TyView,
    span: Span,
    thing: Thing,
)
    requires
        fits(b, Thing::Body),
        fits(b, Thing::Value(object)),
        fits(b, thing),
    ensures
        #[trigger] fits(b.optional_field(object, name, result, span).0, thing),
{
    broadcast use {
        things, missing_fits, missing_gives, add_block_fits, add_block_gives, emit_fits, emit_gives,
        branch_fits, switch_to_fits, coerce_fits, coerce_gives, jump_with_fits,
        add_block_param_fits, add_block_param_gives,
    };

    reveal(BodyView::optional_field);
}

pub(crate) broadcast proof fn optional_field_gives<'a>(
    b: BodyView<'a>,
    object: Value,
    name: Seq<char>,
    result: TyView,
    span: Span,
)
    requires
        fits(b, Thing::Body),
        fits(b, Thing::Value(object)),
    ensures
        #[trigger] fits(
            b.optional_field(object, name, result, span).0,
            Thing::Value(b.optional_field(object, name, result, span).1),
        ),
{
    broadcast use {
        things, missing_fits, missing_gives, add_block_fits, add_block_gives, emit_fits, emit_gives,
        branch_fits, switch_to_fits, coerce_fits, coerce_gives, jump_with_fits,
        add_block_param_fits, add_block_param_gives,
    };

    reveal(BodyView::optional_field);
}

pub(crate) broadcast proof fn list_fits<'a>(
    b: BodyView<'a>,
    values: Seq<Expr>,
    wanted: Option<TyView>,
    span: Span,
    deeper: Deeper<'a>,
    thing: Thing,
)
    requires
        fits(b, Thing::Body),
        sturdy(deeper),
        fits(b, thing),
    ensures
        #[trigger] fits(b.list(values, wanted, span, deeper).0, thing),
{
    broadcast use {
        things, settled_type_fits, missing_fits, missing_gives, each_at_fits, each_at_gives,
        emit_fits, emit_gives,
    };

    reveal(BodyView::list);
}

pub(crate) broadcast proof fn list_gives<'a>(
    b: BodyView<'a>,
    values: Seq<Expr>,
    wanted: Option<TyView>,
    span: Span,
    deeper: Deeper<'a>,
)
    requires
        fits(b, Thing::Body),
        sturdy(deeper),
    ensures
        #[trigger] fits(
            b.list(values, wanted, span, deeper).0,
            Thing::Value(b.list(values, wanted, span, deeper).1),
        ),
{
    broadcast use {
        things, settled_type_fits, missing_fits, missing_gives, each_at_fits, each_at_gives,
        emit_fits, emit_gives,
    };

    reveal(BodyView::list);
}

pub(crate) broadcast proof fn each_at_fits<'a>(
    b: BodyView<'a>,
    list: Seq<Expr>,
    element: TyView,
    deeper: Deeper<'a>,
    count: nat,
    thing: Thing,
)
    requires
        fits(b, Thing::Body),
        sturdy(deeper),
        count <= list.len(),
        fits(b, thing),
    ensures
        #[trigger] fits(b.each_at(list, element, deeper, count).0, thing),
    decreases count,
{
    broadcast use {things, expr_fits, expr_gives};

    reveal(BodyView::each_at);
    if count > 0 {
        each_at_fits(b, list, element, deeper, (count - 1) as nat, Thing::Body);
        each_at_fits(b, list, element, deeper, (count - 1) as nat, thing);
        each_at_gives(b, list, element, deeper, (count - 1) as nat);
    }
}

pub(crate) broadcast proof fn each_at_gives<'a>(
    b: BodyView<'a>,
    list: Seq<Expr>,
    element: TyView,
    deeper: Deeper<'a>,
    count: nat,
)
    requires
        fits(b, Thing::Body),
        sturdy(deeper),
        count <= list.len(),
    ensures
        #[trigger] fits(
            b.each_at(list, element, deeper, count).0,
            Thing::Values(b.each_at(list, element, deeper, count).1),
        ),
    decreases count,
{
    broadcast use {things, expr_fits, expr_gives};

    reveal(BodyView::each_at);
    if count > 0 {
        each_at_fits(b, list, element, deeper, (count - 1) as nat, Thing::Body);
        each_at_gives(b, list, element, deeper, (count - 1) as nat);
    }
}

pub(crate) broadcast proof fn map_fits<'a>(
    b: BodyView<'a>,
    entries: Seq<MapEntry>,
    wanted: Option<TyView>,
    span: Span,
    deeper: Deeper<'a>,
    thing: Thing,
)
    requires
        fits(b, Thing::Body),
        sturdy(deeper),
        fits(b, thing),
    ensures
        #[trigger] fits(b.map(entries, wanted, span, deeper).0, thing),
{
    broadcast use {
        things, settled_type_fits, missing_fits, missing_gives, map_entries_fits, map_entries_gives,
        emit_fits, emit_gives,
    };

    reveal(BodyView::map);
}

pub(crate) broadcast proof fn map_gives<'a>(
    b: BodyView<'a>,
    entries: Seq<MapEntry>,
    wanted: Option<TyView>,
    span: Span,
    deeper: Deeper<'a>,
)
    requires
        fits(b, Thing::Body),
        sturdy(deeper),
    ensures
        #[trigger] fits(
            b.map(entries, wanted, span, deeper).0,
            Thing::Value(b.map(entries, wanted, span, deeper).1),
        ),
{
    broadcast use {
        things, settled_type_fits, missing_fits, missing_gives, map_entries_fits, map_entries_gives,
        emit_fits, emit_gives,
    };

    reveal(BodyView::map);
}

pub(crate) broadcast proof fn map_entries_fits<'a>(
    b: BodyView<'a>,
    entries: Seq<MapEntry>,
    key: TyView,
    value: TyView,
    span: Span,
    deeper: Deeper<'a>,
    count: nat,
    thing: Thing,
)
    requires
        fits(b, Thing::Body),
        sturdy(deeper),
        count <= entries.len(),
        fits(b, thing),
    ensures
        #[trigger] fits(b.map_entries(entries, key, value, span, deeper, count).0, thing),
    decreases count,
{
    broadcast use {things, emit_fits, emit_gives, expr_fits, expr_gives};

    reveal(BodyView::map_entries);
    if count > 0 {
        map_entries_fits(b, entries, key, value, span, deeper, (count - 1) as nat, Thing::Body);
        map_entries_fits(b, entries, key, value, span, deeper, (count - 1) as nat, thing);
        map_entries_gives(b, entries, key, value, span, deeper, (count - 1) as nat);
    }
}

pub(crate) broadcast proof fn map_entries_gives<'a>(
    b: BodyView<'a>,
    entries: Seq<MapEntry>,
    key: TyView,
    value: TyView,
    span: Span,
    deeper: Deeper<'a>,
    count: nat,
)
    requires
        fits(b, Thing::Body),
        sturdy(deeper),
        count <= entries.len(),
    ensures
        #[trigger] fits(
            b.map_entries(entries, key, value, span, deeper, count).0,
            Thing::Pairs(b.map_entries(entries, key, value, span, deeper, count).1),
        ),
    decreases count,
{
    broadcast use {things, emit_fits, emit_gives, expr_fits, expr_gives};

    reveal(BodyView::map_entries);
    if count > 0 {
        map_entries_fits(b, entries, key, value, span, deeper, (count - 1) as nat, Thing::Body);
        map_entries_gives(b, entries, key, value, span, deeper, (count - 1) as nat);
    }
}

pub(crate) broadcast proof fn set_fits<'a>(
    b: BodyView<'a>,
    values: Seq<Expr>,
    wanted: Option<TyView>,
    span: Span,
    deeper: Deeper<'a>,
    thing: Thing,
)
    requires
        fits(b, Thing::Body),
        sturdy(deeper),
        fits(b, thing),
    ensures
        #[trigger] fits(b.set(values, wanted, span, deeper).0, thing),
{
    broadcast use {
        things, settled_type_fits, missing_fits, missing_gives, each_at_fits, each_at_gives,
        emit_fits, emit_gives,
    };

    reveal(BodyView::set);
}

pub(crate) broadcast proof fn set_gives<'a>(
    b: BodyView<'a>,
    values: Seq<Expr>,
    wanted: Option<TyView>,
    span: Span,
    deeper: Deeper<'a>,
)
    requires
        fits(b, Thing::Body),
        sturdy(deeper),
    ensures
        #[trigger] fits(
            b.set(values, wanted, span, deeper).0,
            Thing::Value(b.set(values, wanted, span, deeper).1),
        ),
{
    broadcast use {
        things, settled_type_fits, missing_fits, missing_gives, each_at_fits, each_at_gives,
        emit_fits, emit_gives,
    };

    reveal(BodyView::set);
}

pub(crate) broadcast proof fn index_fits<'a>(
    b: BodyView<'a>,
    receiver: Expr,
    index: Expr,
    optional: bool,
    span: Span,
    deeper: Deeper<'a>,
    thing: Thing,
)
    requires
        fits(b, Thing::Body),
        sturdy(deeper),
        fits(b, thing),
    ensures
        #[trigger] fits(b.index(receiver, index, optional, span, deeper).0, thing),
{
    broadcast use {
        things, missing_fits, missing_gives, call_fits, call_gives, expr_fits, expr_gives,
        settled_fits, settled_gives, recorded_fits, emit_fits, emit_gives, narrowed_fits,
        narrowed_gives,
    };

    reveal(BodyView::index);
}

pub(crate) broadcast proof fn index_gives<'a>(
    b: BodyView<'a>,
    receiver: Expr,
    index: Expr,
    optional: bool,
    span: Span,
    deeper: Deeper<'a>,
)
    requires
        fits(b, Thing::Body),
        sturdy(deeper),
    ensures
        #[trigger] fits(
            b.index(receiver, index, optional, span, deeper).0,
            Thing::Value(b.index(receiver, index, optional, span, deeper).1),
        ),
{
    broadcast use {
        things, missing_fits, missing_gives, call_fits, call_gives, expr_fits, expr_gives,
        settled_fits, settled_gives, recorded_fits, emit_fits, emit_gives, narrowed_fits,
        narrowed_gives,
    };

    reveal(BodyView::index);
}

} // verus!
