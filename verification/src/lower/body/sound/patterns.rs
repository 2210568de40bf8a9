//! That what lowering a body names is there: patterns.

use vstd::prelude::*;

use crate::ast::{Binding, Expr, FieldBinding, FieldPattern, MatchArm, Pattern, Payload};
use crate::inst::Value;
use crate::program::BlockId;
use crate::span::Span;
use crate::ty::TyView;

use super::super::deeper::{Deeper, deeper};
use super::super::BodyView;
use super::leaves::{bind_name_fits, branch_fits, check_fits, tag_test_fits, tag_test_gives};
use super::{
    Thing, add_block_fits, add_block_gives, bind_value_fits, block_fits, declare_binding_fits,
    declare_fits, emit_fits, emit_gives, expr_fits, expr_gives, fits, gap_fits, join_fits,
    open_fits, restore_fits, set_def_fits, sturdy, switch_to_fits, terminate_fits, test_fits,
    things,
};
use super::scopes::close_fits;

verus! {

pub(crate) broadcast proof fn match_stmt_fits<'a>(
    b: BodyView<'a>,
    scrutinee: Expr,
    arms: Seq<MatchArm>,
    span: Span,
    deeper: Deeper<'a>,
    thing: Thing,
)
    requires
        fits(b, Thing::Body),
        sturdy(deeper),
        fits(b, thing),
    ensures
        #[trigger] fits(b.match_stmt(scrutinee, arms, span, deeper), thing),
{
    broadcast use {
        things, expr_fits, expr_gives, add_block_fits, add_block_gives, match_arms_fits,
        match_arms_gives, terminate_fits, join_fits,
    };

    reveal(BodyView::match_stmt);
}

pub(crate) broadcast proof fn match_arms_fits<'a>(
    b: BodyView<'a>,
    subject: Value,
    arms: Seq<MatchArm>,
    entering: Map<u32, Value>,
    span: Span,
    deeper: Deeper<'a>,
    count: nat,
    thing: Thing,
)
    requires
        fits(b, Thing::Body),
        sturdy(deeper),
        fits(b, Thing::Value(subject)),
        fits(b, Thing::Defs(entering)),
        count <= arms.len(),
        fits(b, thing),
    ensures
        #[trigger] fits(b.match_arms(subject, arms, entering, span, deeper, count).0, thing),
    decreases count,
{
    broadcast use {
        things, add_block_fits, add_block_gives, open_fits, arm_fits, block_fits, expr_fits,
        expr_gives, close_fits, switch_to_fits, restore_fits,
    };

    reveal(BodyView::match_arms);
    if count > 0 {
        match_arms_fits(b, subject, arms, entering, span, deeper, (count - 1) as nat, Thing::Body);
        match_arms_fits(
            b,
            subject,
            arms,
            entering,
            span,
            deeper,
            (count - 1) as nat,
            Thing::Value(subject),
        );
        match_arms_fits(
            b,
            subject,
            arms,
            entering,
            span,
            deeper,
            (count - 1) as nat,
            Thing::Defs(entering),
        );
        match_arms_fits(b, subject, arms, entering, span, deeper, (count - 1) as nat, thing);
        match_arms_gives(b, subject, arms, entering, span, deeper, (count - 1) as nat);
    }
}

pub(crate) broadcast proof fn match_arms_gives<'a>(
    b: BodyView<'a>,
    subject: Value,
    arms: Seq<MatchArm>,
    entering: Map<u32, Value>,
    span: Span,
    deeper: Deeper<'a>,
    count: nat,
)
    requires
        fits(b, Thing::Body),
        sturdy(deeper),
        fits(b, Thing::Value(subject)),
        fits(b, Thing::Defs(entering)),
        count <= arms.len(),
    ensures
        #[trigger] fits(
            b.match_arms(subject, arms, entering, span, deeper, count).0,
            Thing::Paths(b.match_arms(subject, arms, entering, span, deeper, count).1),
        ),
    decreases count,
{
    broadcast use {
        things, add_block_fits, add_block_gives, open_fits, arm_fits, block_fits, expr_fits,
        expr_gives, close_fits, switch_to_fits, restore_fits,
    };

    reveal(BodyView::match_arms);
    if count > 0 {
        match_arms_fits(b, subject, arms, entering, span, deeper, (count - 1) as nat, Thing::Body);
        match_arms_fits(
            b,
            subject,
            arms,
            entering,
            span,
            deeper,
            (count - 1) as nat,
            Thing::Value(subject),
        );
        match_arms_fits(
            b,
            subject,
            arms,
            entering,
            span,
            deeper,
            (count - 1) as nat,
            Thing::Defs(entering),
        );
        match_arms_gives(b, subject, arms, entering, span, deeper, (count - 1) as nat);
    }
}

pub(crate) broadcast proof fn arm_fits<'a>(
    b: BodyView<'a>,
    subject: Value,
    arm: MatchArm,
    next: BlockId,
    span: Span,
    deeper: Deeper<'a>,
    thing: Thing,
)
    requires
        fits(b, Thing::Body),
        sturdy(deeper),
        fits(b, Thing::Value(subject)),
        fits(b, Thing::Block(next)),
        fits(b, thing),
    ensures
        #[trigger] fits(b.arm(subject, arm, next, span, deeper), thing),
{
    broadcast use {
        things, test_fits, add_block_fits, add_block_gives, expr_fits, expr_gives, branch_fits,
        switch_to_fits,
    };

    reveal(BodyView::arm);
}

pub(crate) broadcast proof fn test_within_fits<'a>(
    b: BodyView<'a>,
    subject: Value,
    pattern: Pattern,
    fail: BlockId,
    deeper: Deeper<'a>,
    thing: Thing,
)
    requires
        fits(b, Thing::Body),
        sturdy(deeper),
        fits(b, Thing::Value(subject)),
        fits(b, Thing::Block(fail)),
        fits(b, thing),
    ensures
        #[trigger] fits(b.test_within(subject, pattern, fail, deeper), thing),
{
    broadcast use {
        things, declare_fits, set_def_fits, alternatives_fits, alternatives_gives, check_fits,
        test_path_fits, gap_fits, test_members_fits, decides_fits, decides_gives,
    };

    reveal(BodyView::test_within);
}

pub(crate) broadcast proof fn test_path_fits<'a>(
    b: BodyView<'a>,
    subject: Value,
    segments: Seq<String>,
    payload: Option<Payload>,
    fail: BlockId,
    span: Span,
    deeper: Deeper<'a>,
    thing: Thing,
)
    requires
        fits(b, Thing::Body),
        sturdy(deeper),
        fits(b, Thing::Value(subject)),
        fits(b, Thing::Block(fail)),
        fits(b, thing),
    ensures
        #[trigger] fits(b.test_path(subject, segments, payload, fail, span, deeper), thing),
{
    broadcast use {
        things, gap_fits, tag_test_fits, tag_test_gives, check_fits, bind_payload_fits,
        bind_fields_fits,
    };

    reveal(BodyView::test_path);
}

pub(crate) broadcast proof fn alternatives_fits<'a>(
    b: BodyView<'a>,
    subject: Value,
    list: Seq<Pattern>,
    span: Span,
    deeper: Deeper<'a>,
    count: nat,
    thing: Thing,
)
    requires
        fits(b, Thing::Body),
        sturdy(deeper),
        fits(b, Thing::Value(subject)),
        count <= list.len(),
        fits(b, thing),
    ensures
        #[trigger] fits(b.alternatives(subject, list, span, deeper, count).0, thing),
    decreases count,
{
    broadcast use {things, decides_fits, decides_gives, emit_fits, emit_gives, gap_fits};

    reveal(BodyView::alternatives);
    if count > 0 {
        alternatives_fits(b, subject, list, span, deeper, (count - 1) as nat, Thing::Body);
        alternatives_fits(
            b,
            subject,
            list,
            span,
            deeper,
            (count - 1) as nat,
            Thing::Value(subject),
        );
        alternatives_fits(b, subject, list, span, deeper, (count - 1) as nat, thing);
        alternatives_gives(b, subject, list, span, deeper, (count - 1) as nat);
    }
}

pub(crate) broadcast proof fn alternatives_gives<'a>(
    b: BodyView<'a>,
    subject: Value,
    list: Seq<Pattern>,
    span: Span,
    deeper: Deeper<'a>,
    count: nat,
)
    requires
        fits(b, Thing::Body),
        sturdy(deeper),
        fits(b, Thing::Value(subject)),
        count <= list.len(),
    ensures
        #[trigger] fits(
            b.alternatives(subject, list, span, deeper, count).0,
            Thing::Nested(b.alternatives(subject, list, span, deeper, count).1),
        ),
    decreases count,
{
    broadcast use {things, decides_fits, decides_gives, emit_fits, emit_gives, gap_fits};

    reveal(BodyView::alternatives);
    if count > 0 {
        alternatives_fits(b, subject, list, span, deeper, (count - 1) as nat, Thing::Body);
        alternatives_fits(
            b,
            subject,
            list,
            span,
            deeper,
            (count - 1) as nat,
            Thing::Value(subject),
        );
        alternatives_gives(b, subject, list, span, deeper, (count - 1) as nat);
    }
}

pub(crate) broadcast proof fn test_members_fits<'a>(
    b: BodyView<'a>,
    subject: Value,
    members: Seq<Pattern>,
    types: Seq<TyView>,
    fail: BlockId,
    span: Span,
    deeper: Deeper<'a>,
    count: nat,
    thing: Thing,
)
    requires
        fits(b, Thing::Body),
        sturdy(deeper),
        fits(b, Thing::Value(subject)),
        fits(b, Thing::Block(fail)),
        count <= members.len(),
        fits(b, thing),
    ensures
        #[trigger] fits(b.test_members(subject, members, types, fail, span, deeper, count), thing),
    decreases count,
{
    broadcast use {things, emit_fits, emit_gives, test_fits};

    reveal(BodyView::test_members);
    if count > 0 {
        test_members_fits(
            b,
            subject,
            members,
            types,
            fail,
            span,
            deeper,
            (count - 1) as nat,
            Thing::Body,
        );
        test_members_fits(
            b,
            subject,
            members,
            types,
            fail,
            span,
            deeper,
            (count - 1) as nat,
            Thing::Value(subject),
        );
        test_members_fits(
            b,
            subject,
            members,
            types,
            fail,
            span,
            deeper,
            (count - 1) as nat,
            Thing::Block(fail),
        );
        test_members_fits(
            b,
            subject,
            members,
            types,
            fail,
            span,
            deeper,
            (count - 1) as nat,
            thing,
        );
    }
}

pub(crate) broadcast proof fn decides_fits<'a>(
    b: BodyView<'a>,
    subject: Value,
    pattern: Pattern,
    deeper: Deeper<'a>,
    thing: Thing,
)
    requires
        fits(b, Thing::Body),
        sturdy(deeper),
        fits(b, Thing::Value(subject)),
        fits(b, thing),
    ensures
        #[trigger] fits(b.decides(subject, pattern, deeper).0, thing),
{
    broadcast use {
        things, emit_fits, emit_gives, expr_fits, expr_gives, tag_test_fits, tag_test_gives,
    };

    reveal(BodyView::decides);
}

pub(crate) broadcast proof fn decides_gives<'a>(
    b: BodyView<'a>,
    subject: Value,
    pattern: Pattern,
    deeper: Deeper<'a>,
)
    requires
        fits(b, Thing::Body),
        sturdy(deeper),
        fits(b, Thing::Value(subject)),
    ensures
        #[trigger] fits(
            b.decides(subject, pattern, deeper).0,
            Thing::Maybe(b.decides(subject, pattern, deeper).1),
        ),
{
    broadcast use {
        things, emit_fits, emit_gives, expr_fits, expr_gives, tag_test_fits, tag_test_gives,
    };

    reveal(BodyView::decides);
}

pub(crate) broadcast proof fn bind_payload_fits<'a>(
    b: BodyView<'a>,
    subject: Value,
    variant: u32,
    payload: Option<Payload>,
    fail: BlockId,
    span: Span,
    deeper: Deeper<'a>,
    thing: Thing,
)
    requires
        fits(b, Thing::Body),
        sturdy(deeper),
        fits(b, Thing::Value(subject)),
        fits(b, Thing::Block(fail)),
        fits(b, thing),
    ensures
        #[trigger] fits(b.bind_payload(subject, variant, payload, fail, span, deeper), thing),
{
    broadcast use {things, gap_fits, test_payload_fits, test_named_payload_fits};

    reveal(BodyView::bind_payload);
}

pub(crate) broadcast proof fn test_payload_fits<'a>(
    b: BodyView<'a>,
    subject: Value,
    variant: u32,
    patterns: Seq<Pattern>,
    carried: Seq<TyView>,
    fail: BlockId,
    span: Span,
    deeper: Deeper<'a>,
    count: nat,
    thing: Thing,
)
    requires
        fits(b, Thing::Body),
        sturdy(deeper),
        fits(b, Thing::Value(subject)),
        fits(b, Thing::Block(fail)),
        count <= patterns.len(),
        fits(b, thing),
    ensures
        #[trigger] fits(
            b.test_payload(subject, variant, patterns, carried, fail, span, deeper, count),
            thing,
        ),
    decreases count,
{
    broadcast use {things, emit_fits, emit_gives, test_fits};

    reveal(BodyView::test_payload);
    if count > 0 {
        test_payload_fits(
            b,
            subject,
            variant,
            patterns,
            carried,
            fail,
            span,
            deeper,
            (count - 1) as nat,
            Thing::Body,
        );
        test_payload_fits(
            b,
            subject,
            variant,
            patterns,
            carried,
            fail,
            span,
            deeper,
            (count - 1) as nat,
            Thing::Value(subject),
        );
        test_payload_fits(
            b,
            subject,
            variant,
            patterns,
            carried,
            fail,
            span,
            deeper,
            (count - 1) as nat,
            Thing::Block(fail),
        );
        test_payload_fits(
            b,
            subject,
            variant,
            patterns,
            carried,
            fail,
            span,
            deeper,
            (count - 1) as nat,
            thing,
        );
    }
}

pub(crate) broadcast proof fn test_named_payload_fits<'a>(
    b: BodyView<'a>,
    subject: Value,
    variant: u32,
    fields: Seq<FieldPattern>,
    declared: Seq<Seq<char>>,
    carried: Seq<TyView>,
    fail: BlockId,
    deeper: Deeper<'a>,
    count: nat,
    thing: Thing,
)
    requires
        fits(b, Thing::Body),
        sturdy(deeper),
        fits(b, Thing::Value(subject)),
        fits(b, Thing::Block(fail)),
        count <= fields.len(),
        fits(b, thing),
    ensures
        #[trigger] fits(
            b.test_named_payload(subject, variant, fields, declared, carried, fail, deeper, count),
            thing,
        ),
    decreases count,
{
    broadcast use {things, emit_fits, emit_gives, bind_field_fits, gap_fits};

    reveal(BodyView::test_named_payload);
    if count > 0 {
        test_named_payload_fits(
            b,
            subject,
            variant,
            fields,
            declared,
            carried,
            fail,
            deeper,
            (count - 1) as nat,
            Thing::Body,
        );
        test_named_payload_fits(
            b,
            subject,
            variant,
            fields,
            declared,
            carried,
            fail,
            deeper,
            (count - 1) as nat,
            Thing::Value(subject),
        );
        test_named_payload_fits(
            b,
            subject,
            variant,
            fields,
            declared,
            carried,
            fail,
            deeper,
            (count - 1) as nat,
            Thing::Block(fail),
        );
        test_named_payload_fits(
            b,
            subject,
            variant,
            fields,
            declared,
            carried,
            fail,
            deeper,
            (count - 1) as nat,
            thing,
        );
    }
}

pub(crate) broadcast proof fn bind_fields_fits<'a>(
    b: BodyView<'a>,
    subject: Value,
    fields: Seq<FieldPattern>,
    fail: BlockId,
    span: Span,
    deeper: Deeper<'a>,
    thing: Thing,
)
    requires
        fits(b, Thing::Body),
        sturdy(deeper),
        fits(b, Thing::Value(subject)),
        fits(b, Thing::Block(fail)),
        fits(b, thing),
    ensures
        #[trigger] fits(b.bind_fields(subject, fields, fail, span, deeper), thing),
{
    broadcast use {things, gap_fits, test_fields_fits};

    reveal(BodyView::bind_fields);
}

pub(crate) broadcast proof fn test_fields_fits<'a>(
    b: BodyView<'a>,
    subject: Value,
    fields: Seq<FieldPattern>,
    declared: Seq<(Seq<char>, TyView)>,
    fail: BlockId,
    deeper: Deeper<'a>,
    count: nat,
    thing: Thing,
)
    requires
        fits(b, Thing::Body),
        sturdy(deeper),
        fits(b, Thing::Value(subject)),
        fits(b, Thing::Block(fail)),
        count <= fields.len(),
        fits(b, thing),
    ensures
        #[trigger] fits(b.test_fields(subject, fields, declared, fail, deeper, count), thing),
    decreases count,
{
    broadcast use {things, emit_fits, emit_gives, bind_field_fits, gap_fits};

    reveal(BodyView::test_fields);
    if count > 0 {
        test_fields_fits(
            b,
            subject,
            fields,
            declared,
            fail,
            deeper,
            (count - 1) as nat,
            Thing::Body,
        );
        test_fields_fits(
            b,
            subject,
            fields,
            declared,
            fail,
            deeper,
            (count - 1) as nat,
            Thing::Value(subject),
        );
        test_fields_fits(
            b,
            subject,
            fields,
            declared,
            fail,
            deeper,
            (count - 1) as nat,
            Thing::Block(fail),
        );
        test_fields_fits(b, subject, fields, declared, fail, deeper, (count - 1) as nat, thing);
    }
}

pub(crate) broadcast proof fn bind_field_fits<'a>(
    b: BodyView<'a>,
    value: Value,
    written: FieldPattern,
    fail: BlockId,
    deeper: Deeper<'a>,
    thing: Thing,
)
    requires
        fits(b, Thing::Body),
        sturdy(deeper),
        fits(b, Thing::Value(value)),
        fits(b, Thing::Block(fail)),
        fits(b, thing),
    ensures
        #[trigger] fits(b.bind_field(value, written, fail, deeper), thing),
{
    broadcast use {things, test_fits, declare_fits, set_def_fits};

    reveal(BodyView::bind_field);
}

pub(crate) broadcast proof fn bind_within_fits<'a>(
    b: BodyView<'a>,
    binding: Binding,
    value: Value,
    span: Span,
    deeper: Deeper<'a>,
    thing: Thing,
)
    requires
        fits(b, Thing::Body),
        sturdy(deeper),
        fits(b, Thing::Value(value)),
        fits(b, thing),
    ensures
        #[trigger] fits(b.bind_within(binding, value, span, deeper), thing),
{
    broadcast use {
        things, bind_name_fits, bind_record_fits, gap_fits, declare_binding_fits, bind_members_fits,
    };

    reveal(BodyView::bind_within);
}

pub(crate) broadcast proof fn bind_record_fits<'a>(
    b: BodyView<'a>,
    value: Value,
    fields: Seq<FieldBinding>,
    declared: Seq<(Seq<char>, TyView)>,
    count: nat,
    thing: Thing,
)
    requires
        fits(b, Thing::Body),
        fits(b, Thing::Value(value)),
        count <= fields.len(),
        fits(b, thing),
    ensures
        #[trigger] fits(b.bind_record(value, fields, declared, count), thing),
    decreases count,
{
    broadcast use {things, emit_fits, emit_gives, declare_fits, set_def_fits, gap_fits};

    reveal(BodyView::bind_record);
    if count > 0 {
        bind_record_fits(b, value, fields, declared, (count - 1) as nat, Thing::Body);
        bind_record_fits(b, value, fields, declared, (count - 1) as nat, Thing::Value(value));
        bind_record_fits(b, value, fields, declared, (count - 1) as nat, thing);
    }
}

pub(crate) broadcast proof fn bind_members_fits<'a>(
    b: BodyView<'a>,
    value: Value,
    bindings: Seq<Binding>,
    members: Seq<TyView>,
    span: Span,
    deeper: Deeper<'a>,
    count: nat,
    thing: Thing,
)
    requires
        fits(b, Thing::Body),
        sturdy(deeper),
        fits(b, Thing::Value(value)),
        count <= bindings.len(),
        fits(b, thing),
    ensures
        #[trigger] fits(b.bind_members(value, bindings, members, span, deeper, count), thing),
    decreases count,
{
    broadcast use {things, emit_fits, emit_gives, bind_value_fits};

    reveal(BodyView::bind_members);
    if count > 0 {
        bind_members_fits(
            b,
            value,
            bindings,
            members,
            span,
            deeper,
            (count - 1) as nat,
            Thing::Body,
        );
        bind_members_fits(
            b,
            value,
            bindings,
            members,
            span,
            deeper,
            (count - 1) as nat,
            Thing::Value(value),
        );
        bind_members_fits(b, value, bindings, members, span, deeper, (count - 1) as nat, thing);
    }
}

} // verus!
