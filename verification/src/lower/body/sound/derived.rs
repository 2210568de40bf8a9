//! That what lowering a body names is there: derived members.

use vstd::prelude::*;

use crate::inst::{InstKindView, Value};
use crate::program::{BlockId, FieldView, VariantView};
use crate::span::Span;
use crate::ty::{TyView, TypeId};

use super::super::derived::Ways;
use super::super::BodyView;
use super::leaves::{branch_fits, jump_with_fits};
use super::{
    Thing, add_block_fits, add_block_gives, add_block_param_fits, add_block_param_gives, emit_fits,
    emit_gives, fits, gap_fits, switch_to_fits, terminate_fits, things,
};

verus! {

pub(crate) broadcast proof fn derive_fits<'a>(
    b: BodyView<'a>,
    member: Seq<char>,
    owner: TypeId,
    span: Span,
    thing: Thing,
)
    requires
        fits(b, Thing::Body),
        fits(b, thing),
    ensures
        #[trigger] fits(b.derive(member, owner, span).0, thing),
{
    broadcast use {
        things, struct_eq_fits, struct_hash_fits, struct_display_fits, underivable_fits,
        enum_eq_fits, enum_hash_fits, enum_display_fits,
    };

    reveal(BodyView::derive);
}

pub(crate) broadcast proof fn underivable_fits<'a>(
    b: BodyView<'a>,
    member: Seq<char>,
    span: Span,
    thing: Thing,
)
    requires
        fits(b, Thing::Body),
        fits(b, thing),
    ensures
        #[trigger] fits(b.underivable(member, span).0, thing),
{
    broadcast use {things, gap_fits};

    reveal(BodyView::underivable);
}

pub(crate) broadcast proof fn answer_fits<'a>(
    b: BodyView<'a>,
    held: bool,
    span: Span,
    thing: Thing,
)
    requires
        fits(b, Thing::Body),
        fits(b, thing),
    ensures
        #[trigger] fits(b.answer(held, span), thing),
{
    broadcast use {things, emit_fits, emit_gives, terminate_fits};

    reveal(BodyView::answer);
}

pub(crate) broadcast proof fn struct_eq_fits<'a>(
    b: BodyView<'a>,
    fields: Seq<FieldView>,
    span: Span,
    thing: Thing,
)
    requires
        fits(b, Thing::Body),
        fits(b, thing),
    ensures
        #[trigger] fits(b.struct_eq(fields, span).0, thing),
{
    broadcast use {
        things, refuse_fits, add_block_fits, add_block_gives, eq_fields_fits, answer_fits,
        switch_to_fits,
    };

    reveal(BodyView::struct_eq);
}

pub(crate) broadcast proof fn refuse_fits<'a>(
    b: BodyView<'a>,
    span: Span,
    what: Seq<char>,
    thing: Thing,
)
    requires
        fits(b, Thing::Body),
        fits(b, thing),
    ensures
        #[trigger] fits(b.refuse(span, what).0, thing),
{
    broadcast use {things, gap_fits};

    reveal(BodyView::refuse);
}

pub(crate) broadcast proof fn eq_fields_fits<'a>(
    b: BodyView<'a>,
    left: Value,
    right: Value,
    variant: Option<u32>,
    fields: Seq<FieldView>,
    differs: BlockId,
    span: Span,
    count: nat,
    thing: Thing,
)
    requires
        fits(b, Thing::Body),
        fits(b, Thing::Value(left)),
        fits(b, Thing::Value(right)),
        fits(b, Thing::Block(differs)),
        count <= fields.len(),
        fits(b, thing),
    ensures
        #[trigger] fits(b.eq_fields(left, right, variant, fields, differs, span, count), thing),
    decreases count,
{
    broadcast use {
        things, emit_fits, emit_gives, same_fits, same_gives, add_block_fits, add_block_gives,
        branch_fits, switch_to_fits,
    };

    reveal(BodyView::eq_fields);
    if count > 0 {
        eq_fields_fits(
            b,
            left,
            right,
            variant,
            fields,
            differs,
            span,
            (count - 1) as nat,
            Thing::Body,
        );
        eq_fields_fits(
            b,
            left,
            right,
            variant,
            fields,
            differs,
            span,
            (count - 1) as nat,
            Thing::Value(left),
        );
        eq_fields_fits(
            b,
            left,
            right,
            variant,
            fields,
            differs,
            span,
            (count - 1) as nat,
            Thing::Value(right),
        );
        eq_fields_fits(
            b,
            left,
            right,
            variant,
            fields,
            differs,
            span,
            (count - 1) as nat,
            Thing::Block(differs),
        );
        eq_fields_fits(b, left, right, variant, fields, differs, span, (count - 1) as nat, thing);
    }
}

pub(crate) broadcast proof fn same_fits<'a>(
    b: BodyView<'a>,
    left: Value,
    right: Value,
    ty: TyView,
    span: Span,
    thing: Thing,
)
    requires
        fits(b, Thing::Body),
        fits(b, Thing::Value(left)),
        fits(b, Thing::Value(right)),
        fits(b, thing),
    ensures
        #[trigger] fits(b.same(left, right, ty, span).0, thing),
{
    broadcast use {things, emit_fits, emit_gives};

    reveal(BodyView::same);
}

pub(crate) broadcast proof fn same_gives<'a>(
    b: BodyView<'a>,
    left: Value,
    right: Value,
    ty: TyView,
    span: Span,
)
    requires
        fits(b, Thing::Body),
        fits(b, Thing::Value(left)),
        fits(b, Thing::Value(right)),
    ensures
        #[trigger] fits(
            b.same(left, right, ty, span).0,
            Thing::Value(b.same(left, right, ty, span).1),
        ),
{
    broadcast use {things, emit_fits, emit_gives};

    reveal(BodyView::same);
}

#[verifier::rlimit(60)]
pub(crate) broadcast proof fn enum_eq_fits<'a>(
    b: BodyView<'a>,
    variants: Seq<VariantView>,
    span: Span,
    thing: Thing,
)
    requires
        fits(b, Thing::Body),
        fits(b, thing),
    ensures
        #[trigger] fits(b.enum_eq(variants, span).0, thing),
{
    broadcast use {
        things, refuse_fits, emit_fits, emit_gives, add_block_fits, add_block_gives, switch_to_fits,
        answer_fits, branch_fits, eq_variants_fits, eq_variants_gives, choose_variant_fits,
    };

    reveal(BodyView::enum_eq);
}

pub(crate) broadcast proof fn eq_variants_fits<'a>(
    b: BodyView<'a>,
    left: Value,
    right: Value,
    variants: Seq<VariantView>,
    differs: BlockId,
    span: Span,
    count: nat,
    thing: Thing,
)
    requires
        fits(b, Thing::Body),
        fits(b, Thing::Value(left)),
        fits(b, Thing::Value(right)),
        fits(b, Thing::Block(differs)),
        count <= variants.len(),
        fits(b, thing),
    ensures
        #[trigger] fits(b.eq_variants(left, right, variants, differs, span, count).0, thing),
    decreases count,
{
    broadcast use {
        things, add_block_fits, add_block_gives, switch_to_fits, eq_fields_fits, answer_fits,
    };

    reveal(BodyView::eq_variants);
    if count > 0 {
        eq_variants_fits(b, left, right, variants, differs, span, (count - 1) as nat, Thing::Body);
        eq_variants_fits(
            b,
            left,
            right,
            variants,
            differs,
            span,
            (count - 1) as nat,
            Thing::Value(left),
        );
        eq_variants_fits(
            b,
            left,
            right,
            variants,
            differs,
            span,
            (count - 1) as nat,
            Thing::Value(right),
        );
        eq_variants_fits(
            b,
            left,
            right,
            variants,
            differs,
            span,
            (count - 1) as nat,
            Thing::Block(differs),
        );
        eq_variants_fits(b, left, right, variants, differs, span, (count - 1) as nat, thing);
        eq_variants_gives(b, left, right, variants, differs, span, (count - 1) as nat);
    }
}

pub(crate) broadcast proof fn eq_variants_gives<'a>(
    b: BodyView<'a>,
    left: Value,
    right: Value,
    variants: Seq<VariantView>,
    differs: BlockId,
    span: Span,
    count: nat,
)
    requires
        fits(b, Thing::Body),
        fits(b, Thing::Value(left)),
        fits(b, Thing::Value(right)),
        fits(b, Thing::Block(differs)),
        count <= variants.len(),
    ensures
        #[trigger] fits(
            b.eq_variants(left, right, variants, differs, span, count).0,
            Thing::Blocks(b.eq_variants(left, right, variants, differs, span, count).1),
        ),
    decreases count,
{
    broadcast use {
        things, add_block_fits, add_block_gives, switch_to_fits, eq_fields_fits, answer_fits,
    };

    reveal(BodyView::eq_variants);
    if count > 0 {
        eq_variants_fits(b, left, right, variants, differs, span, (count - 1) as nat, Thing::Body);
        eq_variants_fits(
            b,
            left,
            right,
            variants,
            differs,
            span,
            (count - 1) as nat,
            Thing::Value(left),
        );
        eq_variants_fits(
            b,
            left,
            right,
            variants,
            differs,
            span,
            (count - 1) as nat,
            Thing::Value(right),
        );
        eq_variants_fits(
            b,
            left,
            right,
            variants,
            differs,
            span,
            (count - 1) as nat,
            Thing::Block(differs),
        );
        eq_variants_gives(b, left, right, variants, differs, span, (count - 1) as nat);
    }
}

pub(crate) broadcast proof fn choose_variant_fits<'a>(
    b: BodyView<'a>,
    tag: Value,
    blocks: Seq<BlockId>,
    from: BlockId,
    span: Span,
    thing: Thing,
)
    requires
        fits(b, Thing::Body),
        fits(b, Thing::Value(tag)),
        fits(b, Thing::Blocks(blocks)),
        fits(b, Thing::Block(from)),
        fits(b, thing),
    ensures
        #[trigger] fits(b.choose_variant(tag, blocks, from, span), thing),
{
    broadcast use {things, add_block_fits, add_block_gives, switch_to_fits, terminate_fits};

    reveal(BodyView::choose_variant);
}

pub(crate) broadcast proof fn hash_start_fits<'a>(
    b: BodyView<'a>,
    span: Span,
    thing: Thing,
)
    requires
        fits(b, Thing::Body),
        fits(b, thing),
    ensures
        #[trigger] fits(b.hash_start(span).0, thing),
{
    broadcast use {things, emit_fits, emit_gives};

    reveal(BodyView::hash_start);
}

pub(crate) broadcast proof fn hash_start_gives<'a>(
    b: BodyView<'a>,
    span: Span,
)
    requires
        fits(b, Thing::Body),
    ensures
        #[trigger] fits(b.hash_start(span).0, Thing::Value(b.hash_start(span).1)),
{
    broadcast use {things, emit_fits, emit_gives};

    reveal(BodyView::hash_start);
}

pub(crate) broadcast proof fn combine_fits<'a>(
    b: BodyView<'a>,
    state: Value,
    value: Value,
    span: Span,
    thing: Thing,
)
    requires
        fits(b, Thing::Body),
        fits(b, Thing::Value(state)),
        fits(b, Thing::Value(value)),
        fits(b, thing),
    ensures
        #[trigger] fits(b.combine(state, value, span).0, thing),
{
    broadcast use {things, emit_fits, emit_gives};

    reveal(BodyView::combine);
}

pub(crate) broadcast proof fn combine_gives<'a>(
    b: BodyView<'a>,
    state: Value,
    value: Value,
    span: Span,
)
    requires
        fits(b, Thing::Body),
        fits(b, Thing::Value(state)),
        fits(b, Thing::Value(value)),
    ensures
        #[trigger] fits(
            b.combine(state, value, span).0,
            Thing::Value(b.combine(state, value, span).1),
        ),
{
    broadcast use {things, emit_fits, emit_gives};

    reveal(BodyView::combine);
}

pub(crate) broadcast proof fn struct_hash_fits<'a>(
    b: BodyView<'a>,
    fields: Seq<FieldView>,
    span: Span,
    thing: Thing,
)
    requires
        fits(b, Thing::Body),
        fits(b, thing),
    ensures
        #[trigger] fits(b.struct_hash(fields, span).0, thing),
{
    broadcast use {
        things, refuse_fits, hash_start_fits, hash_start_gives, hash_fields_fits, hash_fields_gives,
        terminate_fits,
    };

    reveal(BodyView::struct_hash);
}

pub(crate) broadcast proof fn hash_fields_fits<'a>(
    b: BodyView<'a>,
    first: Value,
    value: Value,
    variant: Option<u32>,
    fields: Seq<FieldView>,
    span: Span,
    count: nat,
    thing: Thing,
)
    requires
        fits(b, Thing::Body),
        fits(b, Thing::Value(first)),
        fits(b, Thing::Value(value)),
        count <= fields.len(),
        fits(b, thing),
    ensures
        #[trigger] fits(b.hash_fields(first, value, variant, fields, span, count).0, thing),
    decreases count,
{
    broadcast use {
        things, emit_fits, emit_gives, hash_fits, hash_gives, combine_fits, combine_gives,
    };

    reveal(BodyView::hash_fields);
    if count > 0 {
        hash_fields_fits(b, first, value, variant, fields, span, (count - 1) as nat, Thing::Body);
        hash_fields_fits(
            b,
            first,
            value,
            variant,
            fields,
            span,
            (count - 1) as nat,
            Thing::Value(first),
        );
        hash_fields_fits(
            b,
            first,
            value,
            variant,
            fields,
            span,
            (count - 1) as nat,
            Thing::Value(value),
        );
        hash_fields_fits(b, first, value, variant, fields, span, (count - 1) as nat, thing);
        hash_fields_gives(b, first, value, variant, fields, span, (count - 1) as nat);
    }
}

pub(crate) broadcast proof fn hash_fields_gives<'a>(
    b: BodyView<'a>,
    first: Value,
    value: Value,
    variant: Option<u32>,
    fields: Seq<FieldView>,
    span: Span,
    count: nat,
)
    requires
        fits(b, Thing::Body),
        fits(b, Thing::Value(first)),
        fits(b, Thing::Value(value)),
        count <= fields.len(),
    ensures
        #[trigger] fits(
            b.hash_fields(first, value, variant, fields, span, count).0,
            Thing::Value(b.hash_fields(first, value, variant, fields, span, count).1),
        ),
    decreases count,
{
    broadcast use {
        things, emit_fits, emit_gives, hash_fits, hash_gives, combine_fits, combine_gives,
    };

    reveal(BodyView::hash_fields);
    if count > 0 {
        hash_fields_fits(b, first, value, variant, fields, span, (count - 1) as nat, Thing::Body);
        hash_fields_fits(
            b,
            first,
            value,
            variant,
            fields,
            span,
            (count - 1) as nat,
            Thing::Value(first),
        );
        hash_fields_fits(
            b,
            first,
            value,
            variant,
            fields,
            span,
            (count - 1) as nat,
            Thing::Value(value),
        );
        hash_fields_gives(b, first, value, variant, fields, span, (count - 1) as nat);
    }
}

pub(crate) broadcast proof fn hash_fits<'a>(
    b: BodyView<'a>,
    value: Value,
    ty: TyView,
    span: Span,
    thing: Thing,
)
    requires
        fits(b, Thing::Body),
        fits(b, Thing::Value(value)),
        fits(b, thing),
    ensures
        #[trigger] fits(b.hash(value, ty, span).0, thing),
{
    broadcast use {things, emit_fits, emit_gives};

    reveal(BodyView::hash);
}

pub(crate) broadcast proof fn hash_gives<'a>(
    b: BodyView<'a>,
    value: Value,
    ty: TyView,
    span: Span,
)
    requires
        fits(b, Thing::Body),
        fits(b, Thing::Value(value)),
    ensures
        #[trigger] fits(b.hash(value, ty, span).0, Thing::Value(b.hash(value, ty, span).1)),
{
    broadcast use {things, emit_fits, emit_gives};

    reveal(BodyView::hash);
}

pub(crate) broadcast proof fn enum_hash_fits<'a>(
    b: BodyView<'a>,
    variants: Seq<VariantView>,
    span: Span,
    thing: Thing,
)
    requires
        fits(b, Thing::Body),
        fits(b, thing),
    ensures
        #[trigger] fits(b.enum_hash(variants, span).0, thing),
{
    broadcast use {
        things, refuse_fits, emit_fits, emit_gives, hash_start_fits, hash_start_gives, combine_fits,
        combine_gives, hash_variants_fits, hash_variants_gives, choose_variant_fits,
    };

    reveal(BodyView::enum_hash);
}

pub(crate) broadcast proof fn hash_variants_fits<'a>(
    b: BodyView<'a>,
    state: Value,
    value: Value,
    variants: Seq<VariantView>,
    span: Span,
    count: nat,
    thing: Thing,
)
    requires
        fits(b, Thing::Body),
        fits(b, Thing::Value(state)),
        fits(b, Thing::Value(value)),
        count <= variants.len(),
        fits(b, thing),
    ensures
        #[trigger] fits(b.hash_variants(state, value, variants, span, count).0, thing),
    decreases count,
{
    broadcast use {
        things, add_block_fits, add_block_gives, switch_to_fits, hash_fields_fits,
        hash_fields_gives, terminate_fits,
    };

    reveal(BodyView::hash_variants);
    if count > 0 {
        hash_variants_fits(b, state, value, variants, span, (count - 1) as nat, Thing::Body);
        hash_variants_fits(
            b,
            state,
            value,
            variants,
            span,
            (count - 1) as nat,
            Thing::Value(state),
        );
        hash_variants_fits(
            b,
            state,
            value,
            variants,
            span,
            (count - 1) as nat,
            Thing::Value(value),
        );
        hash_variants_fits(b, state, value, variants, span, (count - 1) as nat, thing);
        hash_variants_gives(b, state, value, variants, span, (count - 1) as nat);
    }
}

pub(crate) broadcast proof fn hash_variants_gives<'a>(
    b: BodyView<'a>,
    state: Value,
    value: Value,
    variants: Seq<VariantView>,
    span: Span,
    count: nat,
)
    requires
        fits(b, Thing::Body),
        fits(b, Thing::Value(state)),
        fits(b, Thing::Value(value)),
        count <= variants.len(),
    ensures
        #[trigger] fits(
            b.hash_variants(state, value, variants, span, count).0,
            Thing::Blocks(b.hash_variants(state, value, variants, span, count).1),
        ),
    decreases count,
{
    broadcast use {
        things, add_block_fits, add_block_gives, switch_to_fits, hash_fields_fits,
        hash_fields_gives, terminate_fits,
    };

    reveal(BodyView::hash_variants);
    if count > 0 {
        hash_variants_fits(b, state, value, variants, span, (count - 1) as nat, Thing::Body);
        hash_variants_fits(
            b,
            state,
            value,
            variants,
            span,
            (count - 1) as nat,
            Thing::Value(state),
        );
        hash_variants_fits(
            b,
            state,
            value,
            variants,
            span,
            (count - 1) as nat,
            Thing::Value(value),
        );
        hash_variants_gives(b, state, value, variants, span, (count - 1) as nat);
    }
}

pub(crate) broadcast proof fn string_fits<'a>(
    b: BodyView<'a>,
    text: Seq<char>,
    span: Span,
    thing: Thing,
)
    requires
        fits(b, Thing::Body),
        fits(b, thing),
    ensures
        #[trigger] fits(b.string(text, span).0, thing),
{
    broadcast use {things, emit_fits, emit_gives};

    reveal(BodyView::string);
}

pub(crate) broadcast proof fn string_gives<'a>(
    b: BodyView<'a>,
    text: Seq<char>,
    span: Span,
)
    requires
        fits(b, Thing::Body),
    ensures
        #[trigger] fits(b.string(text, span).0, Thing::Value(b.string(text, span).1)),
{
    broadcast use {things, emit_fits, emit_gives};

    reveal(BodyView::string);
}

pub(crate) broadcast proof fn concat_values_fits<'a>(
    b: BodyView<'a>,
    left: Value,
    right: Value,
    span: Span,
    thing: Thing,
)
    requires
        fits(b, Thing::Body),
        fits(b, Thing::Value(left)),
        fits(b, Thing::Value(right)),
        fits(b, thing),
    ensures
        #[trigger] fits(b.concat_values(left, right, span).0, thing),
{
    broadcast use {things, emit_fits, emit_gives};

    reveal(BodyView::concat_values);
}

pub(crate) broadcast proof fn concat_values_gives<'a>(
    b: BodyView<'a>,
    left: Value,
    right: Value,
    span: Span,
)
    requires
        fits(b, Thing::Body),
        fits(b, Thing::Value(left)),
        fits(b, Thing::Value(right)),
    ensures
        #[trigger] fits(
            b.concat_values(left, right, span).0,
            Thing::Value(b.concat_values(left, right, span).1),
        ),
{
    broadcast use {things, emit_fits, emit_gives};

    reveal(BodyView::concat_values);
}

pub(crate) broadcast proof fn append_text_fits<'a>(
    b: BodyView<'a>,
    left: Value,
    text: Seq<char>,
    span: Span,
    thing: Thing,
)
    requires
        fits(b, Thing::Body),
        fits(b, Thing::Value(left)),
        fits(b, thing),
    ensures
        #[trigger] fits(b.append_text(left, text, span).0, thing),
{
    broadcast use {things, string_fits, string_gives, concat_values_fits, concat_values_gives};

    reveal(BodyView::append_text);
}

pub(crate) broadcast proof fn append_text_gives<'a>(
    b: BodyView<'a>,
    left: Value,
    text: Seq<char>,
    span: Span,
)
    requires
        fits(b, Thing::Body),
        fits(b, Thing::Value(left)),
    ensures
        #[trigger] fits(
            b.append_text(left, text, span).0,
            Thing::Value(b.append_text(left, text, span).1),
        ),
{
    broadcast use {things, string_fits, string_gives, concat_values_fits, concat_values_gives};

    reveal(BodyView::append_text);
}

pub(crate) broadcast proof fn struct_display_fits<'a>(
    b: BodyView<'a>,
    owner: TypeId,
    fields: Seq<FieldView>,
    span: Span,
    thing: Thing,
)
    requires
        fits(b, Thing::Body),
        fits(b, thing),
    ensures
        #[trigger] fits(b.struct_display(owner, fields, span).0, thing),
{
    broadcast use {
        things, refuse_fits, string_fits, string_gives, display_fields_fits, display_fields_gives,
        append_text_fits, append_text_gives, terminate_fits,
    };

    reveal(BodyView::struct_display);
}

pub(crate) broadcast proof fn display_fields_fits<'a>(
    b: BodyView<'a>,
    first: Value,
    value: Value,
    variant: Option<u32>,
    named: bool,
    fields: Seq<FieldView>,
    span: Span,
    count: nat,
    thing: Thing,
)
    requires
        fits(b, Thing::Body),
        fits(b, Thing::Value(first)),
        fits(b, Thing::Value(value)),
        count <= fields.len(),
        fits(b, thing),
    ensures
        #[trigger] fits(
            b.display_fields(first, value, variant, named, fields, span, count).0,
            thing,
        ),
    decreases count,
{
    broadcast use {
        things, append_text_fits, append_text_gives, emit_fits, emit_gives, display_derived_fits,
        display_derived_gives, concat_values_fits, concat_values_gives,
    };

    reveal(BodyView::display_fields);
    if count > 0 {
        display_fields_fits(
            b,
            first,
            value,
            variant,
            named,
            fields,
            span,
            (count - 1) as nat,
            Thing::Body,
        );
        display_fields_fits(
            b,
            first,
            value,
            variant,
            named,
            fields,
            span,
            (count - 1) as nat,
            Thing::Value(first),
        );
        display_fields_fits(
            b,
            first,
            value,
            variant,
            named,
            fields,
            span,
            (count - 1) as nat,
            Thing::Value(value),
        );
        display_fields_fits(
            b,
            first,
            value,
            variant,
            named,
            fields,
            span,
            (count - 1) as nat,
            thing,
        );
        display_fields_gives(b, first, value, variant, named, fields, span, (count - 1) as nat);
    }
}

pub(crate) broadcast proof fn display_fields_gives<'a>(
    b: BodyView<'a>,
    first: Value,
    value: Value,
    variant: Option<u32>,
    named: bool,
    fields: Seq<FieldView>,
    span: Span,
    count: nat,
)
    requires
        fits(b, Thing::Body),
        fits(b, Thing::Value(first)),
        fits(b, Thing::Value(value)),
        count <= fields.len(),
    ensures
        #[trigger] fits(
            b.display_fields(first, value, variant, named, fields, span, count).0,
            Thing::Value(b.display_fields(first, value, variant, named, fields, span, count).1),
        ),
    decreases count,
{
    broadcast use {
        things, append_text_fits, append_text_gives, emit_fits, emit_gives, display_derived_fits,
        display_derived_gives, concat_values_fits, concat_values_gives,
    };

    reveal(BodyView::display_fields);
    if count > 0 {
        display_fields_fits(
            b,
            first,
            value,
            variant,
            named,
            fields,
            span,
            (count - 1) as nat,
            Thing::Body,
        );
        display_fields_fits(
            b,
            first,
            value,
            variant,
            named,
            fields,
            span,
            (count - 1) as nat,
            Thing::Value(first),
        );
        display_fields_fits(
            b,
            first,
            value,
            variant,
            named,
            fields,
            span,
            (count - 1) as nat,
            Thing::Value(value),
        );
        display_fields_gives(b, first, value, variant, named, fields, span, (count - 1) as nat);
    }
}

pub(crate) broadcast proof fn enum_display_fits<'a>(
    b: BodyView<'a>,
    owner: TypeId,
    variants: Seq<VariantView>,
    span: Span,
    thing: Thing,
)
    requires
        fits(b, Thing::Body),
        fits(b, thing),
    ensures
        #[trigger] fits(b.enum_display(owner, variants, span).0, thing),
{
    broadcast use {
        things, refuse_fits, emit_fits, emit_gives, display_variants_fits, display_variants_gives,
        choose_variant_fits,
    };

    reveal(BodyView::enum_display);
}

pub(crate) broadcast proof fn display_variants_fits<'a>(
    b: BodyView<'a>,
    name: Seq<char>,
    value: Value,
    variants: Seq<VariantView>,
    span: Span,
    count: nat,
    thing: Thing,
)
    requires
        fits(b, Thing::Body),
        fits(b, Thing::Value(value)),
        count <= variants.len(),
        fits(b, thing),
    ensures
        #[trigger] fits(b.display_variants(name, value, variants, span, count).0, thing),
    decreases count,
{
    broadcast use {
        things, add_block_fits, add_block_gives, switch_to_fits, string_fits, string_gives,
        display_fields_fits, display_fields_gives, append_text_fits, append_text_gives,
        terminate_fits,
    };

    reveal(BodyView::display_variants);
    if count > 0 {
        display_variants_fits(b, name, value, variants, span, (count - 1) as nat, Thing::Body);
        display_variants_fits(
            b,
            name,
            value,
            variants,
            span,
            (count - 1) as nat,
            Thing::Value(value),
        );
        display_variants_fits(b, name, value, variants, span, (count - 1) as nat, thing);
        display_variants_gives(b, name, value, variants, span, (count - 1) as nat);
    }
}

pub(crate) broadcast proof fn display_variants_gives<'a>(
    b: BodyView<'a>,
    name: Seq<char>,
    value: Value,
    variants: Seq<VariantView>,
    span: Span,
    count: nat,
)
    requires
        fits(b, Thing::Body),
        fits(b, Thing::Value(value)),
        count <= variants.len(),
    ensures
        #[trigger] fits(
            b.display_variants(name, value, variants, span, count).0,
            Thing::Blocks(b.display_variants(name, value, variants, span, count).1),
        ),
    decreases count,
{
    broadcast use {
        things, add_block_fits, add_block_gives, switch_to_fits, string_fits, string_gives,
        display_fields_fits, display_fields_gives, append_text_fits, append_text_gives,
        terminate_fits,
    };

    reveal(BodyView::display_variants);
    if count > 0 {
        display_variants_fits(b, name, value, variants, span, (count - 1) as nat, Thing::Body);
        display_variants_fits(
            b,
            name,
            value,
            variants,
            span,
            (count - 1) as nat,
            Thing::Value(value),
        );
        display_variants_gives(b, name, value, variants, span, (count - 1) as nat);
    }
}

pub(crate) broadcast proof fn display_bool_fits<'a>(
    b: BodyView<'a>,
    value: Value,
    span: Span,
    thing: Thing,
)
    requires
        fits(b, Thing::Body),
        fits(b, Thing::Value(value)),
        fits(b, thing),
    ensures
        #[trigger] fits(b.display_bool(value, span).0, thing),
{
    broadcast use {
        things, add_block_fits, add_block_gives, branch_fits, switch_to_fits, string_fits,
        string_gives, jump_with_fits, add_block_param_fits, add_block_param_gives,
    };

    reveal(BodyView::display_bool);
}

pub(crate) broadcast proof fn display_bool_gives<'a>(
    b: BodyView<'a>,
    value: Value,
    span: Span,
)
    requires
        fits(b, Thing::Body),
        fits(b, Thing::Value(value)),
    ensures
        #[trigger] fits(b.display_bool(value, span).0, Thing::Value(b.display_bool(value, span).1)),
{
    broadcast use {
        things, add_block_fits, add_block_gives, branch_fits, switch_to_fits, string_fits,
        string_gives, jump_with_fits, add_block_param_fits, add_block_param_gives,
    };

    reveal(BodyView::display_bool);
}

pub(crate) broadcast proof fn split_optional_fits<'a>(
    b: BodyView<'a>,
    value: Value,
    span: Span,
    thing: Thing,
)
    requires
        fits(b, Thing::Body),
        fits(b, Thing::Value(value)),
        fits(b, thing),
    ensures
        #[trigger] fits(b.split_optional(value, span).0, thing),
{
    broadcast use {things, add_block_fits, add_block_gives, emit_fits, emit_gives, branch_fits};

    reveal(BodyView::split_optional);
}

pub(crate) broadcast proof fn split_optional_gives<'a>(
    b: BodyView<'a>,
    value: Value,
    span: Span,
)
    requires
        fits(b, Thing::Body),
        fits(b, Thing::Value(value)),
    ensures
        #[trigger] fits(
            b.split_optional(value, span).0,
            Thing::Ways(b.split_optional(value, span).1),
        ),
{
    broadcast use {things, add_block_fits, add_block_gives, emit_fits, emit_gives, branch_fits};

    reveal(BodyView::split_optional);
}

pub(crate) broadcast proof fn finish_optional_fits<'a>(
    b: BodyView<'a>,
    text: Value,
    ways: Ways,
    span: Span,
    thing: Thing,
)
    requires
        fits(b, Thing::Body),
        fits(b, Thing::Value(text)),
        fits(b, Thing::Ways(ways)),
        fits(b, thing),
    ensures
        #[trigger] fits(b.finish_optional(text, ways, span).0, thing),
{
    broadcast use {
        things, jump_with_fits, switch_to_fits, string_fits, string_gives, add_block_param_fits,
        add_block_param_gives,
    };

    reveal(BodyView::finish_optional);
}

pub(crate) broadcast proof fn finish_optional_gives<'a>(
    b: BodyView<'a>,
    text: Value,
    ways: Ways,
    span: Span,
)
    requires
        fits(b, Thing::Body),
        fits(b, Thing::Value(text)),
        fits(b, Thing::Ways(ways)),
    ensures
        #[trigger] fits(
            b.finish_optional(text, ways, span).0,
            Thing::Value(b.finish_optional(text, ways, span).1),
        ),
{
    broadcast use {
        things, jump_with_fits, switch_to_fits, string_fits, string_gives, add_block_param_fits,
        add_block_param_gives,
    };

    reveal(BodyView::finish_optional);
}

pub(crate) broadcast proof fn display_derived_fits<'a>(
    b: BodyView<'a>,
    value: Value,
    ty: TyView,
    span: Span,
    thing: Thing,
)
    requires
        fits(b, Thing::Body),
        fits(b, Thing::Value(value)),
        fits(b, thing),
    ensures
        #[trigger] fits(b.display_derived(value, ty, span).0, thing),
    decreases ty,
{
    broadcast use {
        things, emit_fits, emit_gives, display_bool_fits, split_optional_fits,
        split_optional_gives, switch_to_fits, finish_optional_fits,
    };

    reveal(BodyView::display_derived);
    match ty {
        TyView::Optional(inner) => {
            let (split, ways) = b.split_optional(value, span);
            let (there, held) = split.switch_to(ways.found).emit(
                InstKindView::Unwrap { value },
                *inner,
                span,
            );
            assert(fits(there, Thing::Body));
            assert(fits(there, Thing::Value(held)));
            assert(fits(there, Thing::Ways(ways)));
            assert(fits(there, thing));
            display_derived_fits(there, held, *inner, span, thing);
            display_derived_fits(there, held, *inner, span, Thing::Body);
            display_derived_fits(there, held, *inner, span, Thing::Ways(ways));
            display_derived_gives(there, held, *inner, span);
        },
        _ => {},
    }
}

pub(crate) broadcast proof fn display_derived_gives<'a>(
    b: BodyView<'a>,
    value: Value,
    ty: TyView,
    span: Span,
)
    requires
        fits(b, Thing::Body),
        fits(b, Thing::Value(value)),
    ensures
        #[trigger] fits(
            b.display_derived(value, ty, span).0,
            Thing::Value(b.display_derived(value, ty, span).1),
        ),
    decreases ty,
{
    broadcast use {
        things, emit_fits, emit_gives, display_bool_gives, split_optional_fits,
        split_optional_gives, switch_to_fits, finish_optional_gives,
    };

    reveal(BodyView::display_derived);
    match ty {
        TyView::Optional(inner) => {
            let (split, ways) = b.split_optional(value, span);
            let (there, held) = split.switch_to(ways.found).emit(
                InstKindView::Unwrap { value },
                *inner,
                span,
            );
            assert(fits(there, Thing::Body));
            assert(fits(there, Thing::Value(held)));
            assert(fits(there, Thing::Ways(ways)));
            display_derived_fits(there, held, *inner, span, Thing::Body);
            display_derived_fits(there, held, *inner, span, Thing::Ways(ways));
            display_derived_gives(there, held, *inner, span);
        },
        _ => {},
    }
}

} // verus!
