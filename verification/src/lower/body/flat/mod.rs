//! That no type lowering a body gives out has an optional in an optional.

use vstd::prelude::*;

use crate::ast::{
    BinaryOp as AstBinary, Binding, Block, Branch, CatchClause, Expr, FieldBinding, FieldInit,
    FieldPattern, FunctionBody, IfBranch, InterpolationPart, MapEntry, MatchArm, Param, Pattern,
    Payload, Stmt, UnaryOp as AstUnary,
};
use crate::inst::{InstKindView, MethodId, TerminatorView, Value};
use crate::lower::names::{in_body, Seeking};
use crate::lower::types::{converted_types_never_nest, each_converted_never_nests};
use crate::program::{
    id_limit, BlockId, BlockView, FieldView, FuncId, FunctionView, MethodView, NominalView,
    ProgramView, ShapeView, SlotId, VariantView,
};
use crate::sema::{recorded_at, BuiltinCall, CollectionMutation, Intrinsic, OverflowMethod};
use crate::span::Span;
use crate::ty::{any_field_nests, any_nests, filled_types_never_nest, Builtin, TyView, TypeId};

use super::{
    ArrivalView, BodyView, CalleeView, Cleanup, ContextView, HandlerView, LoopView, PropertyView,
};
use super::calls::{captured_types, closure_name};
use super::deeper::{deeper, Deeper};
use super::derived::Ways;
use super::flow::{arrived, declared_fields, merged, nothing_carried, one_carried, vars_in};
use super::given::{bound_params_view, wanted_types_view, Bound, Given};
use super::iterate::{CountedView, Source};
use super::kinds::{
    array_element_view, builtin_over_view, function_of_view, function_over_view, optional,
    optional_inner_view, optional_view, pointer_target_view, thrown_or_view,
};
use super::lookups::CapturesView;
use super::queries::{filled_fields, property_from};

verus! {

/// Whether no optional stands directly in an optional in the type.
#[verifier::opaque]
pub open spec fn flat(ty: TyView) -> bool {
    !ty.nests()
}

/// Whether a type that may be missing is flat where it is there.
pub open spec fn flat_maybe(held: Option<TyView>) -> bool {
    held matches Some(ty) ==> flat(ty)
}

/// Whether each of some types is flat.
pub open spec fn flat_all(types: Seq<TyView>) -> bool {
    forall|i: int| 0 <= i < types.len() ==> flat(#[trigger] types[i])
}

/// Whether each of some types that may be missing is flat.
pub open spec fn flat_maybe_all(held: Option<Seq<TyView>>) -> bool {
    held matches Some(types) ==> flat_all(types)
}

/// Whether the type of each of some fields is flat.
pub open spec fn flat_fields(fields: Seq<(Seq<char>, TyView)>) -> bool {
    forall|i: int| 0 <= i < fields.len() ==> flat((#[trigger] fields[i]).1)
}

/// Whether the type of each of some fields that may be missing is flat.
pub open spec fn flat_maybe_fields(held: Option<Seq<(Seq<char>, TyView)>>) -> bool {
    held matches Some(fields) ==> flat_fields(fields)
}

/// Whether the type of each of some declared fields is flat.
pub open spec fn flat_declared(fields: Seq<FieldView>) -> bool {
    forall|i: int| 0 <= i < fields.len() ==> flat((#[trigger] fields[i]).ty)
}

/// Whether what each of some variants carries is flat.
pub open spec fn flat_variants(variants: Seq<VariantView>) -> bool {
    forall|i: int| 0 <= i < variants.len() ==> flat_declared((#[trigger] variants[i]).fields)
}

/// Whether what a method takes and gives back is flat.
pub open spec fn flat_method(method: MethodView) -> bool {
    flat_all(method.params) && flat(method.result)
}

/// Whether the types of a declared type are flat.
pub open spec fn flat_nominal(nominal: NominalView) -> bool {
    match nominal.shape {
        ShapeView::Struct(held) => flat_declared(held.fields),
        ShapeView::Enum(held) => flat_variants(held.variants),
        ShapeView::Interface(held) => {
            &&& forall|i: int| 0 <= i < held.methods.len() ==> flat_method(#[trigger] held.methods[i])
            &&& forall|i: int|
                0 <= i < held.implementors.len() ==> flat((#[trigger] held.implementors[i]).ty)
        },
    }
}

/// Whether the types an instruction names are flat.
pub open spec fn flat_kind(kind: InstKindView) -> bool {
    match kind {
        InstKindView::Convert { to, .. } => flat(to),
        InstKindView::Reinterpret { to, .. } => flat(to),
        InstKindView::IsType { ty, .. } => flat(ty),
        InstKindView::Call { type_args, .. } => flat_all(type_args),
        InstKindView::MakeStruct { ty, .. } => flat(ty),
        InstKindView::MakeEnum { ty, .. } => flat(ty),
        InstKindView::MakeList { element, .. } => flat(element),
        InstKindView::MakeMap { key, value, .. } => flat(key) && flat(value),
        InstKindView::MakeSet { element, .. } => flat(element),
        _ => true,
    }
}

/// Whether the types the instructions of a block name are flat.
pub open spec fn flat_block(block: BlockView) -> bool {
    forall|i: int| 0 <= i < block.insts.len() ==> flat_kind((#[trigger] block.insts[i]).kind)
}

/// Whether every type of a function is flat: what it takes and gives back, what its
/// values and slots hold, and what its instructions name.
#[verifier::opaque]
pub open spec fn flat_function(function: FunctionView) -> bool {
    &&& flat_all(function.params)
    &&& flat(function.result)
    &&& flat_all(function.values)
    &&& flat_all(function.slots)
    &&& forall|i: int| 0 <= i < function.blocks.len() ==> flat_block(#[trigger] function.blocks[i])
}

/// Whether every type of a program is flat: those of its functions and of the types
/// it declares, and those with something that runs when a value is released.
#[verifier::opaque]
pub open spec fn flat_program(program: ProgramView) -> bool {
    &&& forall|i: int| 0 <= i < program.types.len() ==> flat_nominal(#[trigger] program.types[i])
    &&& forall|i: int|
        0 <= i < program.functions.len() ==> flat_function(#[trigger] program.functions[i])
    &&& forall|i: int|
        0 <= i < program.finalizers.len() ==> flat((#[trigger] program.finalizers[i]).0)
}

/// Whether what a function that is called takes is flat.
pub open spec fn flat_callee(callee: CalleeView) -> bool {
    forall|i: int| 0 <= i < callee.params.len() ==> flat((#[trigger] callee.params[i]).ty)
}

/// Whether the types of everything a body may reach are flat.
#[verifier::opaque]
pub open spec fn flat_context(context: ContextView) -> bool {
    &&& flat_program(context.program)
    &&& forall|i: int|
        0 <= i < context.callees.len() ==> flat_callee((#[trigger] context.callees[i]).1)
    &&& forall|i: int|
        0 <= i < context.properties.len() ==> flat((#[trigger] context.properties[i]).ty)
}

/// Whether every type in play in a body is flat.
#[verifier::opaque]
pub open spec fn flat_body(b: BodyView) -> bool {
    &&& flat_context(b.context)
    &&& flat_function(b.function)
    &&& flat(b.declared)
    &&& forall|i: int| 0 <= i < b.made.len() ==> flat_function((#[trigger] b.made[i]).1)
}

/// A type is flat where its members are. Of a type that is one thing inside another
/// this says nothing.
pub(crate) broadcast proof fn members_are_flat(ty: TyView)
    ensures
        #[trigger] flat(ty) == match ty {
            TyView::Named { args, .. } => flat_all(args),
            TyView::Builtin { args, .. } => flat_all(args),
            TyView::Union(members) => flat_all(members),
            TyView::Tuple(members) => flat_all(members),
            TyView::Record(fields) => flat_fields(fields),
            TyView::Optional(_) | TyView::Cell(_) | TyView::Array(_, _) => flat(ty),
            TyView::Pointer { .. } | TyView::Function { .. } => flat(ty),
            _ => true,
        },
{
    reveal(flat);
    match ty {
        TyView::Named { args, .. } => {
            assert(flat_all(args) == !any_nests(args));
        },
        TyView::Builtin { args, .. } => {
            assert(flat_all(args) == !any_nests(args));
        },
        TyView::Union(args) => {
            assert(flat_all(args) == !any_nests(args));
        },
        TyView::Tuple(args) => {
            assert(flat_all(args) == !any_nests(args));
        },
        TyView::Record(fields) => {
            assert(flat_fields(fields) == !any_field_nests(fields));
        },
        _ => {},
    }
}

pub(crate) broadcast proof fn optional_inner_is_flat(
    ty: TyView,
)
    requires
        flat(ty),
    ensures
        flat_maybe(#[trigger] optional_inner_view(ty)),
{
    reveal(flat);
}

pub(crate) broadcast proof fn pointer_target_is_flat(
    ty: TyView,
)
    requires
        flat(ty),
    ensures
        flat_maybe(#[trigger] pointer_target_view(ty)),
{
    reveal(flat);
}

pub(crate) broadcast proof fn array_element_is_flat(
    ty: TyView,
)
    requires
        flat(ty),
    ensures
        flat_maybe(#[trigger] array_element_view(ty)),
{
    reveal(flat);
}

pub(crate) broadcast proof fn a_function_type_is_flat(
    ty: TyView,
)
    requires
        flat(ty),
    ensures
        (#[trigger] function_of_view(ty)) matches Some(held) ==> flat_all(held.params) && flat(
            held.result,
        ),
{
    reveal(flat);
    if let TyView::Function { params, .. } = ty {
        assert(!any_nests(params));
    }
}

pub(crate) broadcast proof fn optional_is_flat(
    ty: TyView,
)
    requires
        flat(ty),
    ensures
        flat(#[trigger] optional_view(ty)),
{
    reveal(flat);
}

pub(crate) broadcast proof fn thrown_or_is_flat(
    ty: TyView,
)
    requires
        flat(ty),
    ensures
        flat(#[trigger] thrown_or_view(ty)),
{
    broadcast use members_are_flat;
}

pub(crate) broadcast proof fn builtin_over_is_flat(
    kind: Builtin,
    ty: TyView,
)
    requires
        flat(ty),
    ensures
        flat(#[trigger] builtin_over_view(kind, ty)),
{
    broadcast use members_are_flat;
}

pub(crate) broadcast proof fn function_over_is_flat(
    param: TyView,
    result: TyView,
)
    requires
        flat(param),
        flat(result),
    ensures
        flat(#[trigger] function_over_view(param, result)),
{
    reveal(flat);
    assert(!any_nests(seq![param]));
}

pub(crate) broadcast proof fn filled_is_flat(
    ty: TyView,
    params: Seq<Seq<char>>,
    args: Seq<TyView>,
)
    requires
        flat(ty),
        flat_all(args),
    ensures
        flat(#[trigger] ty.substitute(params, args)),
{
    reveal(flat);
    assert forall|i: int| 0 <= i < args.len() implies !(#[trigger] args[i]).nests() by {
        assert(flat(args[i]));
    }
    filled_types_never_nest(ty, params, args);
}

pub(crate) broadcast proof fn wanted_types_are_flat<'a>(
    reached: CalleeView<'a>,
    args: Seq<TyView>,
)
    requires
        flat_callee(reached),
        flat_all(args),
    ensures
        flat_all(#[trigger] wanted_types_view(reached, args)),
{
    broadcast use filled_is_flat;

    assert forall|i: int| 0 <= i < reached.params.len() implies flat(
        #[trigger] wanted_types_view(reached, args)[i],
    ) by {
        assert(flat(reached.params[i].ty));
    }
}

pub(crate) broadcast proof fn type_at_is_flat<'a>(
    b: BodyView<'a>,
    value: Value,
)
    requires
        flat_body(b),
    ensures
        flat(#[trigger] b.type_at(value)),
{
    broadcast use members_are_flat;

    reveal(flat_body);
    reveal(flat_function);
    reveal(BodyView::type_at);
}

pub(crate) broadcast proof fn slot_type_is_flat<'a>(
    b: BodyView<'a>,
    slot: SlotId,
)
    requires
        flat_body(b),
    ensures
        flat(#[trigger] b.slot_type(slot)),
{
    broadcast use members_are_flat;

    reveal(flat_body);
    reveal(flat_function);
    reveal(BodyView::slot_type);
}

pub(crate) broadcast proof fn declared_result_is_flat<'a>(
    b: BodyView<'a>,
)
    requires
        #[trigger] flat_body(b),
    ensures
        flat(b.declared) && flat(b.function.result),
{
    reveal(flat_body);
    reveal(flat_function);
}

pub(crate) broadcast proof fn maybe_recorded_is_flat<'a>(
    b: BodyView<'a>,
    span: Span,
)
    ensures
        flat_maybe(#[trigger] b.maybe_recorded(span)),
{
    reveal(flat);
    reveal(BodyView::maybe_recorded);
    if let Some(ty) = b.context.facts.spec_type_of(span) {
        converted_types_never_nest(ty, b.context.ids);
    }
}

pub(crate) broadcast proof fn known_type_is_flat<'a>(
    b: BodyView<'a>,
    expr: Expr,
)
    requires
        flat_body(b),
    ensures
        flat_maybe(#[trigger] b.known_type(expr)),
{
    broadcast use {type_at_is_flat, optional_inner_is_flat, maybe_recorded_is_flat};

    reveal(BodyView::known_type);
}

proof fn filled_fields_are_flat(fields: Seq<FieldView>, params: Seq<Seq<char>>, args: Seq<TyView>)
    requires
        flat_declared(fields),
        flat_all(args),
    ensures
        flat_fields(filled_fields(fields, params, args)),
{
    broadcast use filled_is_flat;

    assert forall|i: int| 0 <= i < fields.len() implies flat(
        (#[trigger] filled_fields(fields, params, args)[i]).1,
    ) by {
        assert(flat(fields[i].ty));
    }
}

proof fn a_type_of_a_program_is_flat(program: ProgramView, id: TypeId)
    requires
        flat_program(program),
        id.0 < program.types.len(),
    ensures
        flat_nominal(program.types[id.0 as int]),
{
    reveal(flat_program);
}

pub(crate) broadcast proof fn fields_are_flat<'a>(
    b: BodyView<'a>,
    ty: TyView,
)
    requires
        flat_body(b),
        flat(ty),
    ensures
        flat_maybe_fields(#[trigger] b.fields_of(ty)),
{
    broadcast use members_are_flat;

    reveal(flat_body);
    reveal(flat_context);
    reveal(BodyView::fields_of);
    if let TyView::Named { id, args } = ty {
        if id.0 < b.context.program.types.len() {
            a_type_of_a_program_is_flat(b.context.program, id);
            let nominal = b.context.program.types[id.0 as int];
            if let ShapeView::Struct(held) = nominal.shape {
                filled_fields_are_flat(held.fields, nominal.type_params, args);
            }
        }
    }
}

pub(crate) broadcast proof fn a_payload_is_flat<'a>(
    b: BodyView<'a>,
    ty: TyView,
    variant: u32,
)
    requires
        flat_body(b),
        flat(ty),
    ensures
        flat_maybe_all(#[trigger] b.payload_of(ty, variant)),
{
    broadcast use members_are_flat;

    reveal(flat_body);
    reveal(flat_context);
    reveal(BodyView::payload_of);
    if let TyView::Named { id, args } = ty {
        if id.0 < b.context.program.types.len() {
            a_type_of_a_program_is_flat(b.context.program, id);
            let nominal = b.context.program.types[id.0 as int];
            if let ShapeView::Enum(held) = nominal.shape {
                if (variant as int) < held.variants.len() {
                    let fields = held.variants[variant as int].fields;
                    assert(flat_declared(fields));
                    filled_fields_are_flat(fields, nominal.type_params, args);
                }
            }
        }
    }
}

pub(crate) broadcast proof fn a_stored_type_is_flat<'a>(
    b: BodyView<'a>,
    ty: TyView,
    index: u32,
)
    requires
        flat_body(b),
        flat(ty),
    ensures
        flat_maybe(#[trigger] b.stored_type(ty, index)),
{
    broadcast use {members_are_flat, fields_are_flat};

    reveal(BodyView::stored_type);
}

proof fn a_listed_property_is_flat<'a>(
    held: Seq<PropertyView<'a>>,
    owner: TypeId,
    name: Seq<char>,
    from: nat,
)
    requires
        forall|i: int| 0 <= i < held.len() ==> flat((#[trigger] held[i]).ty),
    ensures
        property_from(held, owner, name, from) matches Some(found) ==> flat(found.ty),
    decreases held.len() - from,
{
    if from < held.len() {
        a_listed_property_is_flat(held, owner, name, from + 1);
    }
}

pub(crate) broadcast proof fn a_getter_is_flat<'a>(
    b: BodyView<'a>,
    ty: TyView,
    name: Seq<char>,
)
    requires
        flat_body(b),
        flat(ty),
    ensures
        (#[trigger] b.getter(ty, name)) matches Some(found) ==> flat(found.1),
{
    broadcast use {members_are_flat, filled_is_flat};

    reveal(flat_body);
    reveal(flat_context);
    reveal(BodyView::getter);
    if let TyView::Named { id, args } = ty {
        a_listed_property_is_flat(b.context.properties, id, name, 0);
    }
}

proof fn a_listed_callee_is_flat<'a>(held: Seq<(Span, CalleeView<'a>)>, span: Span)
    requires
        forall|i: int| 0 <= i < held.len() ==> flat_callee((#[trigger] held[i]).1),
    ensures
        recorded_at(held, span) matches Some(callee) ==> flat_callee(callee),
    decreases held.len(),
{
    if held.len() > 0 {
        assert forall|i: int| 0 <= i < held.skip(1).len() implies flat_callee(
            (#[trigger] held.skip(1)[i]).1,
        ) by {
            assert(held.skip(1)[i] == held[i + 1]);
        }
        a_listed_callee_is_flat(held.skip(1), span);
    }
}

pub(crate) broadcast proof fn a_callee_is_flat<'a>(
    b: BodyView<'a>,
    span: Span,
)
    requires
        flat_body(b),
    ensures
        (#[trigger] b.callee_of(span)) matches Some(callee) ==> flat_callee(callee),
{
    reveal(flat_body);
    reveal(flat_context);
    reveal(BodyView::callee_of);
    a_listed_callee_is_flat(b.context.callees, span);
}

pub(crate) broadcast proof fn type_args_are_flat<'a>(
    b: BodyView<'a>,
    span: Span,
    wanted: nat,
)
    ensures
        flat_maybe_all(#[trigger] b.generic_args(span, wanted)),
{
    reveal(flat);
    reveal(BodyView::generic_args);
    reveal(BodyView::type_args);
    if let Some(args) = b.context.facts.spec_type_args(span) {
        each_converted_never_nests(args@, b.context.ids, args@.len());
    }
}

pub(crate) broadcast proof fn collection_args_are_flat<'a>(
    b: BodyView<'a>,
    receiver: Value,
)
    requires
        flat_body(b),
    ensures
        flat_all(#[trigger] b.collection_args(receiver)),
{
    broadcast use {members_are_flat, type_at_is_flat};

    reveal(BodyView::collection_args);
}

pub(crate) broadcast proof fn declared_fields_are_flat<'a>(
    b: BodyView<'a>,
    id: TypeId,
)
    requires
        flat_body(b),
    ensures
        (#[trigger] b.declared_fields(id)) matches Some(fields) ==> flat_declared(fields),
{
    reveal(flat_body);
    reveal(flat_context);
    if id.0 < b.context.program.types.len() {
        a_type_of_a_program_is_flat(b.context.program, id);
    }
}

pub(crate) broadcast proof fn declared_variants_are_flat<'a>(
    b: BodyView<'a>,
    id: TypeId,
)
    requires
        flat_body(b),
    ensures
        (#[trigger] b.declared_variants(id)) matches Some(variants) ==> flat_variants(variants),
{
    reveal(flat_body);
    reveal(flat_context);
    if id.0 < b.context.program.types.len() {
        a_type_of_a_program_is_flat(b.context.program, id);
    }
}

pub broadcast group flat_types {
    members_are_flat,
    optional_inner_is_flat,
    pointer_target_is_flat,
    array_element_is_flat,
    a_function_type_is_flat,
    optional_is_flat,
    thrown_or_is_flat,
    builtin_over_is_flat,
    function_over_is_flat,
    filled_is_flat,
    wanted_types_are_flat,
    type_at_is_flat,
    slot_type_is_flat,
    declared_result_is_flat,
    maybe_recorded_is_flat,
    known_type_is_flat,
    fields_are_flat,
    a_payload_is_flat,
    a_stored_type_is_flat,
    a_getter_is_flat,
    a_callee_is_flat,
    type_args_are_flat,
    collection_args_are_flat,
    declared_fields_are_flat,
    declared_variants_are_flat,
}

/// A body of a function whose types are flat starts with every type flat.
pub proof fn a_fresh_body_is_flat<'a>(
    context: ContextView<'a>,
    function: FunctionView,
    throws: bool,
    mutated: Seq<Seq<char>>,
    next: u32,
)
    requires
        flat_context(context),
        flat_function(function),
    ensures
        flat_body(BodyView::fresh(context, function, throws, mutated, next)),
{
    broadcast use flat_types;

    reveal(flat_body);
    reveal(flat_function);
    reveal(BodyView::fresh);
    let b = BodyView::fresh(context, function, throws, mutated, next);
    assert forall|i: int| 0 <= i < b.function.blocks.len() implies flat_block(
        #[trigger] b.function.blocks[i],
    ) by {
        assert(flat_block(function.blocks[i]));
    }
}

pub(crate) broadcast proof fn gap_stays_flat<'a>(
    b: BodyView<'a>,
    span: Span,
    what: Seq<char>,
)
    requires
        flat_body(b),
    ensures
        flat_body(#[trigger] b.gap(span, what)),
{
    reveal(flat_body);
    reveal(BodyView::gap);
}

pub(crate) broadcast proof fn emit_stays_flat<'a>(
    b: BodyView<'a>,
    kind: InstKindView,
    ty: TyView,
    span: Span,
)
    requires
        flat_body(b),
        flat_kind(kind),
        flat(ty),
    ensures
        flat_body((#[trigger] b.emit(kind, ty, span)).0),
{
    reveal(flat_function);
    reveal(flat_body);
    reveal(BodyView::gap);
    reveal(BodyView::emit);
}

pub(crate) broadcast proof fn emit_void_stays_flat<'a>(
    b: BodyView<'a>,
    kind: InstKindView,
    span: Span,
)
    requires
        flat_body(b),
        flat_kind(kind),
    ensures
        flat_body(#[trigger] b.emit_void(kind, span)),
{
    reveal(flat_function);
    reveal(flat_body);
    reveal(BodyView::emit_void);
}

pub(crate) broadcast proof fn terminate_stays_flat<'a>(
    b: BodyView<'a>,
    term: TerminatorView,
)
    requires
        flat_body(b),
    ensures
        flat_body(#[trigger] b.terminate(term)),
{
    reveal(flat_function);
    reveal(flat_body);
    reveal(BodyView::terminate);
}

pub(crate) broadcast proof fn add_block_stays_flat<'a>(
    b: BodyView<'a>,
    span: Span,
)
    requires
        flat_body(b),
    ensures
        flat_body((#[trigger] b.add_block(span)).0),
{
    reveal(flat_function);
    reveal(flat_body);
    reveal(BodyView::gap);
    reveal(BodyView::add_block);
}

pub(crate) broadcast proof fn add_block_param_stays_flat<'a>(
    b: BodyView<'a>,
    block: BlockId,
    ty: TyView,
    span: Span,
)
    requires
        flat_body(b),
        flat(ty),
    ensures
        flat_body((#[trigger] b.add_block_param(block, ty, span)).0),
{
    reveal(flat_function);
    reveal(flat_body);
    reveal(BodyView::gap);
    reveal(BodyView::add_block_param);
}

pub(crate) broadcast proof fn add_slot_stays_flat<'a>(
    b: BodyView<'a>,
    var: u32,
    ty: TyView,
    span: Span,
)
    requires
        flat_body(b),
        flat(ty),
    ensures
        flat_body((#[trigger] b.add_slot(var, ty, span)).0),
{
    reveal(flat_function);
    reveal(flat_body);
    reveal(BodyView::gap);
    reveal(BodyView::add_slot);
}

pub(crate) broadcast proof fn switch_to_stays_flat<'a>(
    b: BodyView<'a>,
    block: BlockId,
)
    requires
        flat_body(b),
    ensures
        flat_body(#[trigger] b.switch_to(block)),
{
    reveal(flat_body);
    reveal(BodyView::switch_to);
}

pub(crate) broadcast proof fn declare_stays_flat<'a>(
    b: BodyView<'a>,
    name: Seq<char>,
)
    requires
        flat_body(b),
    ensures
        flat_body((#[trigger] b.declare(name)).0),
{
    reveal(flat_body);
    reveal(BodyView::declare);
}

pub(crate) broadcast proof fn open_stays_flat<'a>(
    b: BodyView<'a>,
)
    requires
        flat_body(b),
    ensures
        flat_body(#[trigger] b.open()),
{
    reveal(flat_body);
    reveal(BodyView::open);
}

pub(crate) broadcast proof fn drop_scope_stays_flat<'a>(
    b: BodyView<'a>,
)
    requires
        flat_body(b),
    ensures
        flat_body(#[trigger] b.drop_scope()),
{
    reveal(flat_body);
    reveal(BodyView::drop_scope);
}

pub(crate) broadcast proof fn defer_stays_flat<'a>(
    b: BodyView<'a>,
    cleanup: Cleanup<'a>,
)
    requires
        flat_body(b),
    ensures
        flat_body(#[trigger] b.defer(cleanup)),
{
    reveal(flat_body);
    reveal(BodyView::defer);
}

pub(crate) broadcast proof fn push_handler_stays_flat<'a>(
    b: BodyView<'a>,
    handler: HandlerView,
)
    requires
        flat_body(b),
    ensures
        flat_body(#[trigger] b.push_handler(handler)),
{
    reveal(flat_body);
    reveal(BodyView::push_handler);
}

pub(crate) broadcast proof fn pop_handler_stays_flat<'a>(
    b: BodyView<'a>,
)
    requires
        flat_body(b),
    ensures
        flat_body(#[trigger] b.pop_handler()),
{
    reveal(flat_body);
    reveal(BodyView::pop_handler);
}

pub(crate) broadcast proof fn push_loop_stays_flat<'a>(
    b: BodyView<'a>,
    held: LoopView,
)
    requires
        flat_body(b),
    ensures
        flat_body(#[trigger] b.push_loop(held)),
{
    reveal(flat_body);
    reveal(BodyView::push_loop);
}

pub(crate) broadcast proof fn pop_loop_stays_flat<'a>(
    b: BodyView<'a>,
)
    requires
        flat_body(b),
    ensures
        flat_body(#[trigger] b.pop_loop()),
{
    reveal(flat_body);
    reveal(BodyView::pop_loop);
}

pub(crate) broadcast proof fn set_def_stays_flat<'a>(
    b: BodyView<'a>,
    var: u32,
    value: Value,
)
    requires
        flat_body(b),
    ensures
        flat_body(#[trigger] b.set_def(var, value)),
{
    reveal(flat_body);
    reveal(BodyView::set_def);
}

pub(crate) broadcast proof fn restore_stays_flat<'a>(
    b: BodyView<'a>,
    defs: Map<u32, Value>,
)
    requires
        flat_body(b),
    ensures
        flat_body(#[trigger] b.restore(defs)),
{
    reveal(flat_body);
    reveal(BodyView::restore);
}

pub(crate) broadcast proof fn begin_constant_stays_flat<'a>(
    b: BodyView<'a>,
    name: Seq<char>,
)
    requires
        flat_body(b),
    ensures
        flat_body(#[trigger] b.begin_constant(name)),
{
    reveal(flat_body);
    reveal(BodyView::begin_constant);
}

pub(crate) broadcast proof fn end_constant_stays_flat<'a>(
    b: BodyView<'a>,
)
    requires
        flat_body(b),
    ensures
        flat_body(#[trigger] b.end_constant()),
{
    reveal(flat_body);
    reveal(BodyView::end_constant);
}

pub(crate) broadcast proof fn recorded_stays_flat<'a>(
    b: BodyView<'a>,
    span: Span,
)
    requires
        flat_body(b),
    ensures
        flat_body((#[trigger] b.recorded(span)).0),
        flat(b.recorded(span).1),
{
    reveal(flat_body);
    reveal(BodyView::gap);
    reveal(BodyView::recorded);
    reveal(flat);
    if let Some(ty) = b.context.facts.spec_type_of(span) {
        converted_types_never_nest(ty, b.context.ids);
    }
}

pub(crate) broadcast proof fn declared_type_stays_flat<'a>(
    b: BodyView<'a>,
    span: Span,
)
    requires
        flat_body(b),
    ensures
        flat_body((#[trigger] b.declared_type(span)).0),
        flat_maybe(b.declared_type(span).1),
{
    reveal(flat_body);
    reveal(BodyView::gap);
    reveal(BodyView::declared_type);
    reveal(flat);
    if let Some(ty) = b.context.facts.spec_binding(span) {
        converted_types_never_nest(ty, b.context.ids);
    }
}

pub(crate) broadcast proof fn rejoin_stays_flat<'a>(
    b: BodyView<'a>,
    block: BlockId,
    join: BlockId,
    args: Seq<Value>,
)
    requires
        flat_body(b),
    ensures
        flat_body(#[trigger] b.rejoin(block, join, args)),
{
    reveal(flat_function);
    reveal(flat_body);
    reveal(BodyView::rejoin);
}

proof fn merging_stays_flat<'a>(
    b: BodyView<'a>,
    arrivals: Seq<ArrivalView>,
    join: BlockId,
    vars: Seq<u32>,
    span: Span,
    count: nat,
)
    requires
        flat_body(b),
    ensures
        flat_body(merged(b, arrivals, join, vars, span, count).0),
    decreases count,
{
    broadcast use {type_at_is_flat, add_block_param_stays_flat};

    if count > 0 {
        merging_stays_flat(b, arrivals, join, vars, span, (count - 1) as nat);
    }
}

proof fn arriving_stays_flat<'a>(
    b: BodyView<'a>,
    arrivals: Seq<ArrivalView>,
    carried: Seq<Seq<Value>>,
    join: BlockId,
    params: Seq<u32>,
    count: nat,
)
    requires
        flat_body(b),
    ensures
        flat_body(arrived(b, arrivals, carried, join, params, count)),
    decreases count,
{
    broadcast use rejoin_stays_flat;

    if count > 0 {
        arriving_stays_flat(b, arrivals, carried, join, params, (count - 1) as nat);
    }
}

proof fn meeting_stays_flat<'a>(
    b: BodyView<'a>,
    arrivals: Seq<ArrivalView>,
    carried: Seq<Seq<Value>>,
    join: BlockId,
    span: Span,
)
    requires
        flat_body(b),
    ensures
        flat_body(b.met(arrivals, carried, join, span)),
{
    broadcast use {switch_to_stays_flat, restore_stays_flat};

    let vars = vars_in(b.scopes, b.scopes.len());
    let (after, defs, params) = merged(b, arrivals, join, vars, span, vars.len());
    merging_stays_flat(b, arrivals, join, vars, span, vars.len());
    arriving_stays_flat(after, arrivals, carried, join, params, arrivals.len());
}

pub(crate) broadcast proof fn join_stays_flat<'a>(
    b: BodyView<'a>,
    arrivals: Seq<ArrivalView>,
    join: BlockId,
    span: Span,
)
    requires
        flat_body(b),
    ensures
        flat_body(#[trigger] b.join(arrivals, join, span)),
{
    broadcast use {switch_to_stays_flat, terminate_stays_flat};

    reveal(BodyView::join);
    if arrivals.len() > 0 {
        meeting_stays_flat(b, arrivals, nothing_carried(arrivals.len()), join, span);
    }
}

pub(crate) broadcast proof fn join_carrying_stays_flat<'a>(
    b: BodyView<'a>,
    arrivals: Seq<ArrivalView>,
    values: Seq<Value>,
    join: BlockId,
    ty: TyView,
    span: Span,
)
    requires
        flat_body(b),
        flat(ty),
    ensures
        flat_body((#[trigger] b.join_carrying(arrivals, values, join, ty, span)).0),
{
    broadcast use {switch_to_stays_flat, terminate_stays_flat, add_block_param_stays_flat};

    reveal(BodyView::join_carrying);
    let (after, value) = b.add_block_param(join, ty, span);
    assert(flat_body(after));
    if arrivals.len() > 0 && values.len() == arrivals.len() {
        meeting_stays_flat(after, arrivals, one_carried(values), join, span);
    }
}

proof fn declaring_fields_stays_flat<'a>(
    b: BodyView<'a>,
    fields: Seq<FieldBinding>,
    count: nat,
)
    requires
        flat_body(b),
    ensures
        flat_body(declared_fields(b, fields, count)),
    decreases count,
{
    broadcast use declare_stays_flat;

    if count > 0 {
        declaring_fields_stays_flat(b, fields, (count - 1) as nat);
    }
}

pub(crate) broadcast proof fn declare_binding_stays_flat<'a>(
    b: BodyView<'a>,
    binding: Binding,
)
    requires
        flat_body(b),
    ensures
        flat_body(#[trigger] b.declare_binding(binding)),
    decreases binding, 0nat,
{
    broadcast use declare_stays_flat;

    match binding {
        Binding::Record(fields) => {
            declaring_fields_stays_flat(b, fields@, fields@.len());
        },
        Binding::Tuple(bindings) => {
            declaring_stays_flat(b, bindings@, bindings@.len());
        },
        _ => {},
    }
}

proof fn declaring_stays_flat<'a>(
    b: BodyView<'a>,
    bindings: Seq<Binding>,
    count: nat,
)
    requires
        flat_body(b),
    ensures
        flat_body(b.declare_bindings(bindings, count)),
    decreases bindings, count,
{
    if count > 0 && count <= bindings.len() {
        declaring_stays_flat(b, bindings, (count - 1) as nat);
        declare_binding_stays_flat(b.declare_bindings(bindings, (count - 1) as nat),
            bindings[count - 1],
        );
    }
}

/// Whether lowering what is nested inside something keeps every type flat.
#[verifier::opaque]
pub open spec fn flat_inside(deeper: Deeper) -> bool {
    &&& forall|b: BodyView, expr: Expr, wanted: Option<TyView>|
        flat_body(b) && flat_maybe(wanted) ==> flat_body((#[trigger] (deeper.expr)(b, expr, wanted)).0)
    &&& forall|b: BodyView, block: Block|
        flat_body(b) ==> flat_body(#[trigger] (deeper.block)(b, block))
    &&& forall|b: BodyView, stmts: Seq<Stmt>, span: Span|
        flat_body(b) ==> flat_body(#[trigger] (deeper.stmts)(b, stmts, span))
    &&& forall|
        b: BodyView,
        subject: Value,
        pattern: Pattern,
        fail: BlockId,
    |
        flat_body(b) ==> flat_body(#[trigger] (deeper.test)(b, subject, pattern, fail))
    &&& forall|b: BodyView, binding: Binding, value: Value, span: Span|
        flat_body(b) ==> flat_body(#[trigger] (deeper.bind)(b, binding, value, span))
}

pub(crate) broadcast proof fn expr_stays_flat<'a>(
    b: BodyView<'a>,
    expr: Expr,
    wanted: Option<TyView>,
    deeper: Deeper<'a>,
)
    requires
        flat_body(b),
        flat_maybe(wanted),
        flat_inside(deeper),
    ensures
        flat_body((#[trigger] b.expr(expr, wanted, deeper)).0),
{
    reveal(flat_inside);
}

pub(crate) broadcast proof fn block_stays_flat<'a>(
    b: BodyView<'a>,
    block: Block,
    deeper: Deeper<'a>,
)
    requires
        flat_body(b),
        flat_inside(deeper),
    ensures
        flat_body(#[trigger] b.block(block, deeper)),
{
    reveal(flat_inside);
}

pub(crate) broadcast proof fn stmts_stays_flat<'a>(
    b: BodyView<'a>,
    stmts: Seq<Stmt>,
    span: Span,
    deeper: Deeper<'a>,
)
    requires
        flat_body(b),
        flat_inside(deeper),
    ensures
        flat_body(#[trigger] b.stmts(stmts, span, deeper)),
{
    reveal(flat_inside);
}

pub(crate) broadcast proof fn test_stays_flat<'a>(
    b: BodyView<'a>,
    subject: Value,
    pattern: Pattern,
    fail: BlockId,
    deeper: Deeper<'a>,
)
    requires
        flat_body(b),
        flat_inside(deeper),
    ensures
        flat_body(#[trigger] b.test(subject, pattern, fail, deeper)),
{
    reveal(flat_inside);
}

pub(crate) broadcast proof fn bind_value_stays_flat<'a>(
    b: BodyView<'a>,
    binding: Binding,
    value: Value,
    span: Span,
    deeper: Deeper<'a>,
)
    requires
        flat_body(b),
        flat_inside(deeper),
    ensures
        flat_body(#[trigger] b.bind_value(binding, value, span, deeper)),
{
    reveal(flat_inside);
}

pub(crate) broadcast proof fn missing_stays_flat<'a>(
    b: BodyView<'a>,
    span: Span,
    what: Seq<char>,
)
    requires
        flat_body(b),
    ensures
        flat_body((#[trigger] b.missing(span, what)).0),
{
    broadcast use {flat_types, gap_stays_flat, emit_stays_flat};

    reveal(BodyView::missing);
}

pub(crate) broadcast proof fn unit_stays_flat<'a>(
    b: BodyView<'a>,
    span: Span,
)
    requires
        flat_body(b),
    ensures
        flat_body((#[trigger] b.unit(span)).0),
{
    broadcast use {flat_types, emit_stays_flat};

    reveal(BodyView::unit);
}

pub(crate) broadcast proof fn read_var_stays_flat<'a>(
    b: BodyView<'a>,
    var: u32,
    span: Span,
)
    requires
        flat_body(b),
    ensures
        flat_body((#[trigger] b.read_var(var, span)).0),
{
    broadcast use {flat_types, emit_stays_flat};

    reveal(BodyView::read_var);
}

pub(crate) broadcast proof fn write_var_stays_flat<'a>(
    b: BodyView<'a>,
    var: u32,
    value: Value,
    span: Span,
)
    requires
        flat_body(b),
    ensures
        flat_body(#[trigger] b.write_var(var, value, span)),
{
    broadcast use {flat_types, set_def_stays_flat, emit_void_stays_flat};

    reveal(BodyView::write_var);
}

pub(crate) broadcast proof fn bind_name_stays_flat<'a>(
    b: BodyView<'a>,
    name: Seq<char>,
    value: Value,
    span: Span,
)
    requires
        flat_body(b),
    ensures
        flat_body(#[trigger] b.bind_name(name, value, span)),
{
    broadcast use {
        flat_types, declare_stays_flat, set_def_stays_flat, add_slot_stays_flat,
        emit_void_stays_flat,
    };

    reveal(BodyView::bind_name);
}

pub(crate) broadcast proof fn settled_stays_flat<'a>(
    b: BodyView<'a>,
    value: Value,
    span: Span,
)
    requires
        flat_body(b),
    ensures
        flat_body((#[trigger] b.settled(value, span)).0),
{
    broadcast use {flat_types, emit_stays_flat};

    reveal(BodyView::settled);
}

pub(crate) broadcast proof fn operand_type_stays_flat<'a>(
    b: BodyView<'a>,
    left: Expr,
    right: Expr,
)
    requires
        flat_body(b),
    ensures
        flat_body((#[trigger] b.operand_type(left, right)).0),
        flat(b.operand_type(left, right).1),
{
    broadcast use {flat_types, recorded_stays_flat};

    reveal(BodyView::operand_type);
}

pub(crate) broadcast proof fn numeric_stays_flat<'a>(
    b: BodyView<'a>,
    wanted: Option<TyView>,
    span: Span,
)
    requires
        flat_body(b),
        flat_maybe(wanted),
    ensures
        flat_body((#[trigger] b.numeric(wanted, span)).0),
        flat(b.numeric(wanted, span).1),
{
    broadcast use {flat_types, recorded_stays_flat};

    reveal(BodyView::numeric);
}

pub(crate) broadcast proof fn settled_type_stays_flat<'a>(
    b: BodyView<'a>,
    wanted: Option<TyView>,
    span: Span,
)
    requires
        flat_body(b),
        flat_maybe(wanted),
    ensures
        flat_body((#[trigger] b.settled_type(wanted, span)).0),
        flat(b.settled_type(wanted, span).1),
{
    broadcast use {flat_types, recorded_stays_flat};

    reveal(BodyView::settled_type);
}

pub(crate) broadcast proof fn returned_stays_flat<'a>(
    b: BodyView<'a>,
    value: Value,
    span: Span,
)
    requires
        flat_body(b),
    ensures
        flat_body((#[trigger] b.returned(value, span)).0),
{
    broadcast use {flat_types, emit_stays_flat};

    reveal(BodyView::returned);
}

pub(crate) broadcast proof fn coerce_stays_flat<'a>(
    b: BodyView<'a>,
    value: Value,
    wanted: TyView,
    span: Span,
)
    requires
        flat_body(b),
        flat(wanted),
    ensures
        flat_body((#[trigger] b.coerce(value, wanted, span)).0),
{
    broadcast use {flat_types, emit_stays_flat};

    reveal(BodyView::coerce);
}

pub(crate) broadcast proof fn tag_test_stays_flat<'a>(
    b: BodyView<'a>,
    subject: Value,
    tag: u32,
    span: Span,
)
    requires
        flat_body(b),
    ensures
        flat_body((#[trigger] b.tag_test(subject, tag, span)).0),
{
    broadcast use {flat_types, emit_stays_flat};

    reveal(BodyView::tag_test);
}

pub(crate) broadcast proof fn branch_stays_flat<'a>(
    b: BodyView<'a>,
    condition: Value,
    then: BlockId,
    otherwise: BlockId,
)
    requires
        flat_body(b),
    ensures
        flat_body(#[trigger] b.branch(condition, then, otherwise)),
{
    broadcast use {flat_types, terminate_stays_flat};

    reveal(BodyView::branch);
}

pub(crate) broadcast proof fn jump_with_stays_flat<'a>(
    b: BodyView<'a>,
    block: BlockId,
    value: Value,
)
    requires
        flat_body(b),
    ensures
        flat_body(#[trigger] b.jump_with(block, value)),
{
    broadcast use {flat_types, terminate_stays_flat};

    reveal(BodyView::jump_with);
}

pub(crate) broadcast proof fn check_stays_flat<'a>(
    b: BodyView<'a>,
    test: Value,
    fail: BlockId,
    span: Span,
)
    requires
        flat_body(b),
    ensures
        flat_body(#[trigger] b.check(test, fail, span)),
{
    broadcast use {flat_types, add_block_stays_flat, branch_stays_flat, switch_to_stays_flat};

    reveal(BodyView::check);
}

pub(crate) broadcast proof fn variant_with_stays_flat<'a>(
    b: BodyView<'a>,
    ty: TyView,
    variant: u32,
    value: Value,
    span: Span,
)
    requires
        flat_body(b),
        flat(ty),
    ensures
        flat_body((#[trigger] b.variant_with(ty, variant, value, span)).0),
{
    broadcast use {flat_types, emit_stays_flat};

    reveal(BodyView::variant_with);
}

pub(crate) broadcast proof fn completed_result_stays_flat<'a>(
    b: BodyView<'a>,
    value: Value,
    result: TyView,
    span: Span,
)
    requires
        flat_body(b),
        flat(result),
    ensures
        flat_body((#[trigger] b.completed_result(value, result, span)).0),
{
    broadcast use {flat_types, variant_with_stays_flat};

    reveal(BodyView::completed_result);
}

pub(crate) broadcast proof fn completed_task_stays_flat<'a>(
    b: BodyView<'a>,
    value: Value,
    task: TyView,
    span: Span,
)
    requires
        flat_body(b),
        flat(task),
    ensures
        flat_body((#[trigger] b.completed_task(value, task, span)).0),
{
    broadcast use {flat_types, emit_stays_flat};

    reveal(BodyView::completed_task);
}

pub(crate) broadcast proof fn narrowed_stays_flat<'a>(
    b: BodyView<'a>,
    declared: Option<TyView>,
    result: TyView,
    read: InstKindView,
    span: Span,
)
    requires
        flat_body(b),
        flat_maybe(declared),
        flat(result),
        flat_kind(read),
    ensures
        flat_body((#[trigger] b.narrowed(declared, result, read, span)).0),
{
    broadcast use {flat_types, emit_stays_flat};

    reveal(BodyView::narrowed);
}

pub(crate) broadcast proof fn display_stays_flat<'a>(
    b: BodyView<'a>,
    value: Value,
    span: Span,
)
    requires
        flat_body(b),
    ensures
        flat_body((#[trigger] b.display(value, span)).0),
{
    broadcast use {
        flat_types, emit_stays_flat, add_block_stays_flat, branch_stays_flat, switch_to_stays_flat,
        jump_with_stays_flat, add_block_param_stays_flat, missing_stays_flat,
    };

    reveal(BodyView::display);
}

pub(crate) broadcast proof fn add_params_stays_flat<'a>(
    b: BodyView<'a>,
    block: BlockId,
    carried: Seq<u32>,
    span: Span,
    count: nat,
)
    requires
        flat_body(b),
        count <= carried.len(),
    ensures
        flat_body(#[trigger] b.add_params(block, carried, span, count)),
    decreases count,
{
    broadcast use {flat_types, add_block_param_stays_flat};

    reveal(BodyView::add_params);
    if count > 0 {
        add_params_stays_flat(b, block, carried, span, (count - 1) as nat);
    }
}

pub(crate) broadcast proof fn set_defs_stays_flat<'a>(
    b: BodyView<'a>,
    carried: Seq<u32>,
    values: Seq<Value>,
    count: nat,
)
    requires
        flat_body(b),
        count <= carried.len(),
    ensures
        flat_body(#[trigger] b.set_defs(carried, values, count)),
    decreases count,
{
    broadcast use {flat_types, set_def_stays_flat};

    reveal(BodyView::set_defs);
    if count > 0 {
        set_defs_stays_flat(b, carried, values, (count - 1) as nat);
    }
}

pub(crate) broadcast proof fn bind_params_stays_flat<'a>(
    b: BodyView<'a>,
    block: BlockId,
    carried: Seq<u32>,
)
    requires
        flat_body(b),
    ensures
        flat_body(#[trigger] b.bind_params(block, carried)),
{
    broadcast use {flat_types, set_defs_stays_flat};

    reveal(BodyView::bind_params);
}

pub(crate) broadcast proof fn jump_to_stays_flat<'a>(
    b: BodyView<'a>,
    block: BlockId,
    carried: Seq<u32>,
)
    requires
        flat_body(b),
    ensures
        flat_body(#[trigger] b.jump_to(block, carried)),
{
    broadcast use {flat_types, terminate_stays_flat};

    reveal(BodyView::jump_to);
}

pub(crate) broadcast proof fn error_test_stays_flat<'a>(
    b: BodyView<'a>,
    result: Value,
    failed: BlockId,
    succeeded: BlockId,
    span: Span,
)
    requires
        flat_body(b),
    ensures
        flat_body(#[trigger] b.error_test(result, failed, succeeded, span)),
{
    broadcast use {flat_types, tag_test_stays_flat, branch_stays_flat};

    reveal(BodyView::error_test);
}

pub(crate) broadcast proof fn payload_stays_flat<'a>(
    b: BodyView<'a>,
    value: Value,
    variant: u32,
    ty: TyView,
    span: Span,
)
    requires
        flat_body(b),
        flat(ty),
    ensures
        flat_body((#[trigger] b.payload(value, variant, ty, span)).0),
{
    broadcast use {flat_types, emit_stays_flat};

    reveal(BodyView::payload);
}

pub(crate) broadcast proof fn close_stays_flat<'a>(
    b: BodyView<'a>,
    deeper: Deeper<'a>,
)
    requires
        flat_body(b),
        flat_inside(deeper),
    ensures
        flat_body(#[trigger] b.close(deeper)),
{
    broadcast use {flat_types, unwind_stays_flat, drop_scope_stays_flat};

    reveal(BodyView::close);
}

pub(crate) broadcast proof fn constant_stays_flat<'a>(
    b: BodyView<'a>,
    name: Seq<char>,
    wanted: Option<TyView>,
    span: Span,
    deeper: Deeper<'a>,
)
    requires
        flat_body(b),
        flat_inside(deeper),
        flat_maybe(wanted),
    ensures
        flat_body((#[trigger] b.constant(name, wanted, span, deeper)).0),
{
    broadcast use {
        flat_types, missing_stays_flat, declared_type_stays_flat, begin_constant_stays_flat,
        expr_stays_flat, end_constant_stays_flat,
    };

    reveal(BodyView::constant);
}

pub(crate) broadcast proof fn stored_stays_flat<'a>(
    b: BodyView<'a>,
    expr: Expr,
    wanted: Option<TyView>,
    deeper: Deeper<'a>,
)
    requires
        flat_body(b),
        flat_inside(deeper),
        flat_maybe(wanted),
    ensures
        flat_body((#[trigger] b.stored(expr, wanted, deeper)).0),
{
    broadcast use {flat_types, expr_stays_flat, emit_stays_flat};

    reveal(BodyView::stored);
}

pub(crate) broadcast proof fn raise_stays_flat<'a>(
    b: BodyView<'a>,
    thrown: Value,
    span: Span,
    deeper: Deeper<'a>,
)
    requires
        flat_body(b),
        flat_inside(deeper),
    ensures
        flat_body(#[trigger] b.raise(thrown, span, deeper)),
{
    broadcast use {
        flat_types, unwind_from_stays_flat, terminate_stays_flat, gap_stays_flat,
        variant_with_stays_flat,
    };

    reveal(BodyView::raise);
}

pub(crate) broadcast proof fn leave_stays_flat<'a>(
    b: BodyView<'a>,
    label: Option<Seq<char>>,
    continues: bool,
    span: Span,
    deeper: Deeper<'a>,
)
    requires
        flat_body(b),
        flat_inside(deeper),
    ensures
        flat_body(#[trigger] b.leave(label, continues, span, deeper)),
{
    broadcast use {flat_types, gap_stays_flat, unwind_from_stays_flat, jump_to_stays_flat};

    reveal(BodyView::leave);
}

pub(crate) broadcast proof fn ret_stays_flat<'a>(
    b: BodyView<'a>,
    value: Option<&'a Expr>,
    span: Span,
    deeper: Deeper<'a>,
)
    requires
        flat_body(b),
        flat_inside(deeper),
    ensures
        flat_body(#[trigger] b.ret(value, span, deeper)),
{
    broadcast use {
        flat_types, stored_stays_flat, unit_stays_flat, unwind_from_stays_flat, returned_stays_flat,
        terminate_stays_flat,
    };

    reveal(BodyView::ret);
}

pub(crate) broadcast proof fn caught_or_raised_stays_flat<'a>(
    b: BodyView<'a>,
    outcome: Value,
    result: TyView,
    span: Span,
    deeper: Deeper<'a>,
)
    requires
        flat_body(b),
        flat_inside(deeper),
        flat(result),
    ensures
        flat_body((#[trigger] b.caught_or_raised(outcome, result, span, deeper)).0),
{
    broadcast use {
        flat_types, tag_test_stays_flat, add_block_stays_flat, branch_stays_flat,
        switch_to_stays_flat, payload_stays_flat, raise_stays_flat,
    };

    reveal(BodyView::caught_or_raised);
}

proof fn cleaning_stays_flat<'a>(
    b: BodyView<'a>,
    held: Seq<Cleanup<'a>>,
    deeper: Deeper<'a>,
    count: nat,
)
    requires
        flat_body(b),
        flat_inside(deeper),
    ensures
        flat_body(b.clean(held, deeper, count)),
    decreases count,
{
    broadcast use gap_stays_flat;

    reveal(BodyView::clean);
    if count > 0 {
        match held[count - 1] {
            Cleanup::Deferred(call) => {
                expr_stays_flat(b, *call, None, deeper);
                let (after, _) = b.expr(*call, None, deeper);
                cleaning_stays_flat(after, held, deeper, (count - 1) as nat);
            },
            Cleanup::Finally(block) => {
                block_stays_flat(b, *block, deeper);
                let after = b.block(*block, deeper);
                cleaning_stays_flat(after, held, deeper, (count - 1) as nat);
            },
        }
    }
}

pub(crate) broadcast proof fn unwind_stays_flat<'a>(
    b: BodyView<'a>,
    frame: nat,
    deeper: Deeper<'a>,
)
    requires
        flat_body(b),
        flat_inside(deeper),
    ensures
        flat_body(#[trigger] b.unwind(frame, deeper)),
{
    reveal(BodyView::unwind);
    let held = b.cleanups(frame);
    cleaning_stays_flat(b, held, deeper, held.len());
}

proof fn unwinding_stays_flat<'a>(
    b: BodyView<'a>,
    depth: nat,
    top: nat,
    deeper: Deeper<'a>,
)
    requires
        flat_body(b),
        flat_inside(deeper),
    ensures
        flat_body(b.unwind_between(depth, top, deeper)),
    decreases top,
{
    reveal(BodyView::unwind_between);
    if top > depth {
        unwind_stays_flat(b, (top - 1) as nat, deeper);
        let after = b.unwind((top - 1) as nat, deeper);
        unwinding_stays_flat(after, depth, (top - 1) as nat, deeper);
    }
}

pub(crate) broadcast proof fn unwind_from_stays_flat<'a>(
    b: BodyView<'a>,
    depth: nat,
    deeper: Deeper<'a>,
)
    requires
        flat_body(b),
        flat_inside(deeper),
    ensures
        flat_body(#[trigger] b.unwind_from(depth, deeper)),
{
    reveal(BodyView::unwind_from);
    unwinding_stays_flat(b, depth, b.depth(), deeper);
}

pub(crate) broadcast proof fn record_stays_flat<'a>(
    b: BodyView<'a>,
    path: Seq<String>,
    fields: Seq<FieldInit>,
    wanted: Option<TyView>,
    span: Span,
    deeper: Deeper<'a>,
)
    requires
        flat_body(b),
        flat_inside(deeper),
        flat_maybe(wanted),
    ensures
        flat_body((#[trigger] b.record(path, fields, wanted, span, deeper)).0),
{
    broadcast use {
        flat_types, recorded_stays_flat, missing_stays_flat, construct_record_stays_flat,
        field_values_stays_flat, default_fields_stays_flat, emit_stays_flat,
    };

    reveal(BodyView::record);
}

pub(crate) broadcast proof fn field_values_stays_flat<'a>(
    b: BodyView<'a>,
    fields: Seq<FieldInit>,
    slots: Seq<Option<usize>>,
    declared: Seq<(Seq<char>, TyView)>,
    deeper: Deeper<'a>,
    count: nat,
)
    requires
        flat_body(b),
        flat_inside(deeper),
        flat_fields(declared),
        count <= fields.len(),
    ensures
        flat_body((#[trigger] b.field_values(fields, slots, declared, deeper, count)).0),
    decreases count,
{
    broadcast use {flat_types, stored_stays_flat};

    reveal(BodyView::field_values);
    if count > 0 {
        field_values_stays_flat(b, fields, slots, declared, deeper, (count - 1) as nat);
    }
}

pub(crate) broadcast proof fn default_fields_stays_flat<'a>(
    b: BodyView<'a>,
    ty: TyView,
    declared: Seq<(Seq<char>, TyView)>,
    filled: Seq<Option<Value>>,
    limit: nat,
    span: Span,
    deeper: Deeper<'a>,
    count: nat,
)
    requires
        flat_body(b),
        flat_inside(deeper),
        flat(ty),
        flat_fields(declared),
        count <= filled.len(),
    ensures
        flat_body(
            (#[trigger] b.default_fields(ty, declared, filled, limit, span, deeper, count)).0,
        ),
    decreases count,
{
    broadcast use {flat_types, stored_stays_flat, emit_stays_flat};

    reveal(BodyView::default_fields);
    if count > 0 {
        default_fields_stays_flat(b, ty, declared, filled, limit, span, deeper, (count - 1) as nat);
    }
}

pub(crate) broadcast proof fn construct_record_stays_flat<'a>(
    b: BodyView<'a>,
    ty: TyView,
    variant: u32,
    fields: Seq<FieldInit>,
    span: Span,
    deeper: Deeper<'a>,
)
    requires
        flat_body(b),
        flat_inside(deeper),
        flat(ty),
    ensures
        flat_body((#[trigger] b.construct_record(ty, variant, fields, span, deeper)).0),
{
    broadcast use {flat_types, missing_stays_flat, named_values_stays_flat, emit_stays_flat};

    reveal(BodyView::construct_record);
}

pub(crate) broadcast proof fn named_values_stays_flat<'a>(
    b: BodyView<'a>,
    fields: Seq<FieldInit>,
    slots: Seq<Option<usize>>,
    carried: Seq<TyView>,
    deeper: Deeper<'a>,
    count: nat,
)
    requires
        flat_body(b),
        flat_inside(deeper),
        flat_all(carried),
        count <= fields.len(),
    ensures
        flat_body((#[trigger] b.named_values(fields, slots, carried, deeper, count)).0),
    decreases count,
{
    broadcast use {flat_types, expr_stays_flat};

    reveal(BodyView::named_values);
    if count > 0 {
        named_values_stays_flat(b, fields, slots, carried, deeper, (count - 1) as nat);
    }
}

pub(crate) broadcast proof fn construct_stays_flat<'a>(
    b: BodyView<'a>,
    ty: TyView,
    variant: u32,
    args: Seq<Given<'a>>,
    span: Span,
    deeper: Deeper<'a>,
)
    requires
        flat_body(b),
        flat_inside(deeper),
        flat(ty),
    ensures
        flat_body((#[trigger] b.construct(ty, variant, args, span, deeper)).0),
{
    broadcast use {flat_types, missing_stays_flat, pass_each_stays_flat, emit_stays_flat};

    reveal(BodyView::construct);
}

pub(crate) broadcast proof fn field_stays_flat<'a>(
    b: BodyView<'a>,
    receiver: Expr,
    name: Seq<char>,
    optional: bool,
    span: Span,
    deeper: Deeper<'a>,
)
    requires
        flat_body(b),
        flat_inside(deeper),
    ensures
        flat_body((#[trigger] b.field(receiver, name, optional, span, deeper)).0),
{
    broadcast use {
        flat_types, empty_variant_stays_flat, emit_stays_flat, expr_stays_flat, recorded_stays_flat,
        optional_field_stays_flat, plain_field_stays_flat,
    };

    reveal(BodyView::field);
}

pub(crate) broadcast proof fn empty_variant_stays_flat<'a>(
    b: BodyView<'a>,
    receiver: Expr,
    name: Seq<char>,
    span: Span,
)
    requires
        flat_body(b),
    ensures
        flat_body((#[trigger] b.empty_variant(receiver, name, span)).0),
        b.empty_variant(receiver, name, span).1 matches Some(built) ==> flat(built.0),
{
    broadcast use {flat_types, recorded_stays_flat};

    reveal(BodyView::empty_variant);
}

pub(crate) broadcast proof fn plain_field_stays_flat<'a>(
    b: BodyView<'a>,
    object: Value,
    name: Seq<char>,
    result: TyView,
    span: Span,
)
    requires
        flat_body(b),
        flat(result),
    ensures
        flat_body((#[trigger] b.plain_field(object, name, result, span)).0),
{
    broadcast use {
        flat_types, settled_stays_flat, emit_stays_flat, missing_stays_flat, narrowed_stays_flat,
    };

    reveal(BodyView::plain_field);
}

pub(crate) broadcast proof fn optional_field_stays_flat<'a>(
    b: BodyView<'a>,
    object: Value,
    name: Seq<char>,
    result: TyView,
    span: Span,
)
    requires
        flat_body(b),
        flat(result),
    ensures
        flat_body((#[trigger] b.optional_field(object, name, result, span)).0),
{
    broadcast use {
        flat_types, missing_stays_flat, add_block_stays_flat, emit_stays_flat, branch_stays_flat,
        switch_to_stays_flat, coerce_stays_flat, jump_with_stays_flat, add_block_param_stays_flat,
    };

    reveal(BodyView::optional_field);
}

pub(crate) broadcast proof fn list_stays_flat<'a>(
    b: BodyView<'a>,
    values: Seq<Expr>,
    wanted: Option<TyView>,
    span: Span,
    deeper: Deeper<'a>,
)
    requires
        flat_body(b),
        flat_inside(deeper),
        flat_maybe(wanted),
    ensures
        flat_body((#[trigger] b.list(values, wanted, span, deeper)).0),
{
    broadcast use {
        flat_types, settled_type_stays_flat, missing_stays_flat, each_at_stays_flat,
        emit_stays_flat,
    };

    reveal(BodyView::list);
}

pub(crate) broadcast proof fn each_at_stays_flat<'a>(
    b: BodyView<'a>,
    list: Seq<Expr>,
    element: TyView,
    deeper: Deeper<'a>,
    count: nat,
)
    requires
        flat_body(b),
        flat_inside(deeper),
        flat(element),
        count <= list.len(),
    ensures
        flat_body((#[trigger] b.each_at(list, element, deeper, count)).0),
    decreases count,
{
    broadcast use {flat_types, expr_stays_flat};

    reveal(BodyView::each_at);
    if count > 0 {
        each_at_stays_flat(b, list, element, deeper, (count - 1) as nat);
    }
}

pub(crate) broadcast proof fn map_stays_flat<'a>(
    b: BodyView<'a>,
    entries: Seq<MapEntry>,
    wanted: Option<TyView>,
    span: Span,
    deeper: Deeper<'a>,
)
    requires
        flat_body(b),
        flat_inside(deeper),
        flat_maybe(wanted),
    ensures
        flat_body((#[trigger] b.map(entries, wanted, span, deeper)).0),
{
    broadcast use {
        flat_types, settled_type_stays_flat, missing_stays_flat, map_entries_stays_flat,
        emit_stays_flat,
    };

    reveal(BodyView::map);
}

pub(crate) broadcast proof fn map_entries_stays_flat<'a>(
    b: BodyView<'a>,
    entries: Seq<MapEntry>,
    key: TyView,
    value: TyView,
    span: Span,
    deeper: Deeper<'a>,
    count: nat,
)
    requires
        flat_body(b),
        flat_inside(deeper),
        flat(key),
        flat(value),
        count <= entries.len(),
    ensures
        flat_body((#[trigger] b.map_entries(entries, key, value, span, deeper, count)).0),
    decreases count,
{
    broadcast use {flat_types, emit_stays_flat, expr_stays_flat};

    reveal(BodyView::map_entries);
    if count > 0 {
        map_entries_stays_flat(b, entries, key, value, span, deeper, (count - 1) as nat);
    }
}

pub(crate) broadcast proof fn set_stays_flat<'a>(
    b: BodyView<'a>,
    values: Seq<Expr>,
    wanted: Option<TyView>,
    span: Span,
    deeper: Deeper<'a>,
)
    requires
        flat_body(b),
        flat_inside(deeper),
        flat_maybe(wanted),
    ensures
        flat_body((#[trigger] b.set(values, wanted, span, deeper)).0),
{
    broadcast use {
        flat_types, settled_type_stays_flat, missing_stays_flat, each_at_stays_flat,
        emit_stays_flat,
    };

    reveal(BodyView::set);
}

pub(crate) broadcast proof fn index_stays_flat<'a>(
    b: BodyView<'a>,
    receiver: Expr,
    index: Expr,
    optional: bool,
    span: Span,
    deeper: Deeper<'a>,
)
    requires
        flat_body(b),
        flat_inside(deeper),
    ensures
        flat_body((#[trigger] b.index(receiver, index, optional, span, deeper)).0),
{
    broadcast use {
        flat_types, missing_stays_flat, call_stays_flat, expr_stays_flat, settled_stays_flat,
        recorded_stays_flat, emit_stays_flat, narrowed_stays_flat,
    };

    reveal(BodyView::index);
}

pub(crate) broadcast proof fn match_stmt_stays_flat<'a>(
    b: BodyView<'a>,
    scrutinee: Expr,
    arms: Seq<MatchArm>,
    span: Span,
    deeper: Deeper<'a>,
)
    requires
        flat_body(b),
        flat_inside(deeper),
    ensures
        flat_body(#[trigger] b.match_stmt(scrutinee, arms, span, deeper)),
{
    broadcast use {
        flat_types, expr_stays_flat, add_block_stays_flat, match_arms_stays_flat,
        terminate_stays_flat, join_stays_flat,
    };

    reveal(BodyView::match_stmt);
}

pub(crate) broadcast proof fn match_arms_stays_flat<'a>(
    b: BodyView<'a>,
    subject: Value,
    arms: Seq<MatchArm>,
    entering: Map<u32, Value>,
    span: Span,
    deeper: Deeper<'a>,
    count: nat,
)
    requires
        flat_body(b),
        flat_inside(deeper),
        count <= arms.len(),
    ensures
        flat_body((#[trigger] b.match_arms(subject, arms, entering, span, deeper, count)).0),
    decreases count,
{
    broadcast use {
        flat_types, add_block_stays_flat, open_stays_flat, arm_stays_flat, block_stays_flat,
        expr_stays_flat, close_stays_flat, switch_to_stays_flat, restore_stays_flat,
    };

    reveal(BodyView::match_arms);
    if count > 0 {
        match_arms_stays_flat(b, subject, arms, entering, span, deeper, (count - 1) as nat);
    }
}

pub(crate) broadcast proof fn arm_stays_flat<'a>(
    b: BodyView<'a>,
    subject: Value,
    arm: MatchArm,
    next: BlockId,
    span: Span,
    deeper: Deeper<'a>,
)
    requires
        flat_body(b),
        flat_inside(deeper),
    ensures
        flat_body(#[trigger] b.arm(subject, arm, next, span, deeper)),
{
    broadcast use {
        flat_types, test_stays_flat, add_block_stays_flat, expr_stays_flat, branch_stays_flat,
        switch_to_stays_flat,
    };

    reveal(BodyView::arm);
}

pub(crate) broadcast proof fn test_within_stays_flat<'a>(
    b: BodyView<'a>,
    subject: Value,
    pattern: Pattern,
    fail: BlockId,
    deeper: Deeper<'a>,
)
    requires
        flat_body(b),
        flat_inside(deeper),
    ensures
        flat_body(#[trigger] b.test_within(subject, pattern, fail, deeper)),
{
    broadcast use {
        flat_types, declare_stays_flat, set_def_stays_flat, alternatives_stays_flat,
        check_stays_flat, test_path_stays_flat, gap_stays_flat, test_members_stays_flat,
        decides_stays_flat,
    };

    reveal(BodyView::test_within);
}

pub(crate) broadcast proof fn test_path_stays_flat<'a>(
    b: BodyView<'a>,
    subject: Value,
    segments: Seq<String>,
    payload: Option<Payload>,
    fail: BlockId,
    span: Span,
    deeper: Deeper<'a>,
)
    requires
        flat_body(b),
        flat_inside(deeper),
    ensures
        flat_body(#[trigger] b.test_path(subject, segments, payload, fail, span, deeper)),
{
    broadcast use {
        flat_types, gap_stays_flat, tag_test_stays_flat, check_stays_flat, bind_payload_stays_flat,
        bind_fields_stays_flat,
    };

    reveal(BodyView::test_path);
}

pub(crate) broadcast proof fn alternatives_stays_flat<'a>(
    b: BodyView<'a>,
    subject: Value,
    list: Seq<Pattern>,
    span: Span,
    deeper: Deeper<'a>,
    count: nat,
)
    requires
        flat_body(b),
        flat_inside(deeper),
        count <= list.len(),
    ensures
        flat_body((#[trigger] b.alternatives(subject, list, span, deeper, count)).0),
    decreases count,
{
    broadcast use {flat_types, decides_stays_flat, emit_stays_flat, gap_stays_flat};

    reveal(BodyView::alternatives);
    if count > 0 {
        alternatives_stays_flat(b, subject, list, span, deeper, (count - 1) as nat);
    }
}

pub(crate) broadcast proof fn test_members_stays_flat<'a>(
    b: BodyView<'a>,
    subject: Value,
    members: Seq<Pattern>,
    types: Seq<TyView>,
    fail: BlockId,
    span: Span,
    deeper: Deeper<'a>,
    count: nat,
)
    requires
        flat_body(b),
        flat_inside(deeper),
        flat_all(types),
        count <= members.len(),
    ensures
        flat_body(#[trigger] b.test_members(subject, members, types, fail, span, deeper, count)),
    decreases count,
{
    broadcast use {flat_types, emit_stays_flat, test_stays_flat};

    reveal(BodyView::test_members);
    if count > 0 {
        test_members_stays_flat(b, subject, members, types, fail, span, deeper, (count - 1) as nat);
    }
}

pub(crate) broadcast proof fn decides_stays_flat<'a>(
    b: BodyView<'a>,
    subject: Value,
    pattern: Pattern,
    deeper: Deeper<'a>,
)
    requires
        flat_body(b),
        flat_inside(deeper),
    ensures
        flat_body((#[trigger] b.decides(subject, pattern, deeper)).0),
{
    broadcast use {flat_types, emit_stays_flat, expr_stays_flat, tag_test_stays_flat};

    reveal(BodyView::decides);
}

pub(crate) broadcast proof fn bind_payload_stays_flat<'a>(
    b: BodyView<'a>,
    subject: Value,
    variant: u32,
    payload: Option<Payload>,
    fail: BlockId,
    span: Span,
    deeper: Deeper<'a>,
)
    requires
        flat_body(b),
        flat_inside(deeper),
    ensures
        flat_body(#[trigger] b.bind_payload(subject, variant, payload, fail, span, deeper)),
{
    broadcast use {
        flat_types, gap_stays_flat, test_payload_stays_flat, test_named_payload_stays_flat,
    };

    reveal(BodyView::bind_payload);
}

pub(crate) broadcast proof fn test_payload_stays_flat<'a>(
    b: BodyView<'a>,
    subject: Value,
    variant: u32,
    patterns: Seq<Pattern>,
    carried: Seq<TyView>,
    fail: BlockId,
    span: Span,
    deeper: Deeper<'a>,
    count: nat,
)
    requires
        flat_body(b),
        flat_inside(deeper),
        flat_all(carried),
        count <= patterns.len(),
    ensures
        flat_body(
            #[trigger] b.test_payload(
                subject,
                variant,
                patterns,
                carried,
                fail,
                span,
                deeper,
                count,
            ),
        ),
    decreases count,
{
    broadcast use {flat_types, emit_stays_flat, test_stays_flat};

    reveal(BodyView::test_payload);
    if count > 0 {
        test_payload_stays_flat(
            b,
            subject,
            variant,
            patterns,
            carried,
            fail,
            span,
            deeper,
            (count - 1) as nat,
        );
    }
}

pub(crate) broadcast proof fn test_named_payload_stays_flat<'a>(
    b: BodyView<'a>,
    subject: Value,
    variant: u32,
    fields: Seq<FieldPattern>,
    declared: Seq<Seq<char>>,
    carried: Seq<TyView>,
    fail: BlockId,
    deeper: Deeper<'a>,
    count: nat,
)
    requires
        flat_body(b),
        flat_inside(deeper),
        flat_all(carried),
        count <= fields.len(),
    ensures
        flat_body(
            #[trigger] b.test_named_payload(
                subject,
                variant,
                fields,
                declared,
                carried,
                fail,
                deeper,
                count,
            ),
        ),
    decreases count,
{
    broadcast use {flat_types, emit_stays_flat, bind_field_stays_flat, gap_stays_flat};

    reveal(BodyView::test_named_payload);
    if count > 0 {
        test_named_payload_stays_flat(
            b,
            subject,
            variant,
            fields,
            declared,
            carried,
            fail,
            deeper,
            (count - 1) as nat,
        );
    }
}

pub(crate) broadcast proof fn bind_fields_stays_flat<'a>(
    b: BodyView<'a>,
    subject: Value,
    fields: Seq<FieldPattern>,
    fail: BlockId,
    span: Span,
    deeper: Deeper<'a>,
)
    requires
        flat_body(b),
        flat_inside(deeper),
    ensures
        flat_body(#[trigger] b.bind_fields(subject, fields, fail, span, deeper)),
{
    broadcast use {flat_types, gap_stays_flat, test_fields_stays_flat};

    reveal(BodyView::bind_fields);
}

pub(crate) broadcast proof fn test_fields_stays_flat<'a>(
    b: BodyView<'a>,
    subject: Value,
    fields: Seq<FieldPattern>,
    declared: Seq<(Seq<char>, TyView)>,
    fail: BlockId,
    deeper: Deeper<'a>,
    count: nat,
)
    requires
        flat_body(b),
        flat_inside(deeper),
        flat_fields(declared),
        count <= fields.len(),
    ensures
        flat_body(#[trigger] b.test_fields(subject, fields, declared, fail, deeper, count)),
    decreases count,
{
    broadcast use {flat_types, emit_stays_flat, bind_field_stays_flat, gap_stays_flat};

    reveal(BodyView::test_fields);
    if count > 0 {
        test_fields_stays_flat(b, subject, fields, declared, fail, deeper, (count - 1) as nat);
    }
}

pub(crate) broadcast proof fn bind_field_stays_flat<'a>(
    b: BodyView<'a>,
    value: Value,
    written: FieldPattern,
    fail: BlockId,
    deeper: Deeper<'a>,
)
    requires
        flat_body(b),
        flat_inside(deeper),
    ensures
        flat_body(#[trigger] b.bind_field(value, written, fail, deeper)),
{
    broadcast use {flat_types, test_stays_flat, declare_stays_flat, set_def_stays_flat};

    reveal(BodyView::bind_field);
}

pub(crate) broadcast proof fn bind_within_stays_flat<'a>(
    b: BodyView<'a>,
    binding: Binding,
    value: Value,
    span: Span,
    deeper: Deeper<'a>,
)
    requires
        flat_body(b),
        flat_inside(deeper),
    ensures
        flat_body(#[trigger] b.bind_within(binding, value, span, deeper)),
{
    broadcast use {
        flat_types, bind_name_stays_flat, bind_record_stays_flat, gap_stays_flat,
        declare_binding_stays_flat, bind_members_stays_flat,
    };

    reveal(BodyView::bind_within);
}

pub(crate) broadcast proof fn bind_record_stays_flat<'a>(
    b: BodyView<'a>,
    value: Value,
    fields: Seq<FieldBinding>,
    declared: Seq<(Seq<char>, TyView)>,
    count: nat,
)
    requires
        flat_body(b),
        flat_fields(declared),
        count <= fields.len(),
    ensures
        flat_body(#[trigger] b.bind_record(value, fields, declared, count)),
    decreases count,
{
    broadcast use {
        flat_types, emit_stays_flat, declare_stays_flat, set_def_stays_flat, gap_stays_flat,
    };

    reveal(BodyView::bind_record);
    if count > 0 {
        bind_record_stays_flat(b, value, fields, declared, (count - 1) as nat);
    }
}

pub(crate) broadcast proof fn bind_members_stays_flat<'a>(
    b: BodyView<'a>,
    value: Value,
    bindings: Seq<Binding>,
    members: Seq<TyView>,
    span: Span,
    deeper: Deeper<'a>,
    count: nat,
)
    requires
        flat_body(b),
        flat_inside(deeper),
        flat_all(members),
        count <= bindings.len(),
    ensures
        flat_body(#[trigger] b.bind_members(value, bindings, members, span, deeper, count)),
    decreases count,
{
    broadcast use {flat_types, emit_stays_flat, bind_value_stays_flat};

    reveal(BodyView::bind_members);
    if count > 0 {
        bind_members_stays_flat(b, value, bindings, members, span, deeper, (count - 1) as nat);
    }
}

pub(crate) broadcast proof fn derive_stays_flat<'a>(
    b: BodyView<'a>,
    member: Seq<char>,
    owner: TypeId,
    span: Span,
)
    requires
        flat_body(b),
    ensures
        flat_body((#[trigger] b.derive(member, owner, span)).0),
{
    broadcast use {
        flat_types, struct_eq_stays_flat, struct_hash_stays_flat, struct_display_stays_flat,
        underivable_stays_flat, enum_eq_stays_flat, enum_hash_stays_flat, enum_display_stays_flat,
    };

    reveal(BodyView::derive);
}

pub(crate) broadcast proof fn underivable_stays_flat<'a>(
    b: BodyView<'a>,
    member: Seq<char>,
    span: Span,
)
    requires
        flat_body(b),
    ensures
        flat_body((#[trigger] b.underivable(member, span)).0),
{
    broadcast use {flat_types, gap_stays_flat};

    reveal(BodyView::underivable);
}

pub(crate) broadcast proof fn answer_stays_flat<'a>(
    b: BodyView<'a>,
    held: bool,
    span: Span,
)
    requires
        flat_body(b),
    ensures
        flat_body(#[trigger] b.answer(held, span)),
{
    broadcast use {flat_types, emit_stays_flat, terminate_stays_flat};

    reveal(BodyView::answer);
}

pub(crate) broadcast proof fn struct_eq_stays_flat<'a>(
    b: BodyView<'a>,
    fields: Seq<FieldView>,
    span: Span,
)
    requires
        flat_body(b),
        flat_declared(fields),
    ensures
        flat_body((#[trigger] b.struct_eq(fields, span)).0),
{
    broadcast use {
        flat_types, refuse_stays_flat, add_block_stays_flat, eq_fields_stays_flat,
        answer_stays_flat, switch_to_stays_flat,
    };

    reveal(BodyView::struct_eq);
}

pub(crate) broadcast proof fn refuse_stays_flat<'a>(
    b: BodyView<'a>,
    span: Span,
    what: Seq<char>,
)
    requires
        flat_body(b),
    ensures
        flat_body((#[trigger] b.refuse(span, what)).0),
{
    broadcast use {flat_types, gap_stays_flat};

    reveal(BodyView::refuse);
}

pub(crate) broadcast proof fn eq_fields_stays_flat<'a>(
    b: BodyView<'a>,
    left: Value,
    right: Value,
    variant: Option<u32>,
    fields: Seq<FieldView>,
    differs: BlockId,
    span: Span,
    count: nat,
)
    requires
        flat_body(b),
        flat_declared(fields),
        count <= fields.len(),
    ensures
        flat_body(#[trigger] b.eq_fields(left, right, variant, fields, differs, span, count)),
    decreases count,
{
    broadcast use {
        flat_types, emit_stays_flat, same_stays_flat, add_block_stays_flat, branch_stays_flat,
        switch_to_stays_flat,
    };

    reveal(BodyView::eq_fields);
    if count > 0 {
        eq_fields_stays_flat(b, left, right, variant, fields, differs, span, (count - 1) as nat);
    }
}

pub(crate) broadcast proof fn same_stays_flat<'a>(
    b: BodyView<'a>,
    left: Value,
    right: Value,
    ty: TyView,
    span: Span,
)
    requires
        flat_body(b),
        flat(ty),
    ensures
        flat_body((#[trigger] b.same(left, right, ty, span)).0),
{
    broadcast use {flat_types, emit_stays_flat};

    reveal(BodyView::same);
}

#[verifier::rlimit(60)]
pub(crate) broadcast proof fn enum_eq_stays_flat<'a>(
    b: BodyView<'a>,
    variants: Seq<VariantView>,
    span: Span,
)
    requires
        flat_body(b),
        flat_variants(variants),
    ensures
        flat_body((#[trigger] b.enum_eq(variants, span)).0),
{
    broadcast use {
        flat_types, refuse_stays_flat, emit_stays_flat, add_block_stays_flat, switch_to_stays_flat,
        answer_stays_flat, branch_stays_flat, eq_variants_stays_flat, choose_variant_stays_flat,
    };

    reveal(BodyView::enum_eq);
}

pub(crate) broadcast proof fn eq_variants_stays_flat<'a>(
    b: BodyView<'a>,
    left: Value,
    right: Value,
    variants: Seq<VariantView>,
    differs: BlockId,
    span: Span,
    count: nat,
)
    requires
        flat_body(b),
        flat_variants(variants),
        count <= variants.len(),
    ensures
        flat_body((#[trigger] b.eq_variants(left, right, variants, differs, span, count)).0),
    decreases count,
{
    broadcast use {
        flat_types, add_block_stays_flat, switch_to_stays_flat, eq_fields_stays_flat,
        answer_stays_flat,
    };

    reveal(BodyView::eq_variants);
    if count > 0 {
        eq_variants_stays_flat(b, left, right, variants, differs, span, (count - 1) as nat);
    }
}

pub(crate) broadcast proof fn choose_variant_stays_flat<'a>(
    b: BodyView<'a>,
    tag: Value,
    blocks: Seq<BlockId>,
    from: BlockId,
    span: Span,
)
    requires
        flat_body(b),
    ensures
        flat_body(#[trigger] b.choose_variant(tag, blocks, from, span)),
{
    broadcast use {flat_types, add_block_stays_flat, switch_to_stays_flat, terminate_stays_flat};

    reveal(BodyView::choose_variant);
}

pub(crate) broadcast proof fn hash_start_stays_flat<'a>(
    b: BodyView<'a>,
    span: Span,
)
    requires
        flat_body(b),
    ensures
        flat_body((#[trigger] b.hash_start(span)).0),
{
    broadcast use {flat_types, emit_stays_flat};

    reveal(BodyView::hash_start);
}

pub(crate) broadcast proof fn combine_stays_flat<'a>(
    b: BodyView<'a>,
    state: Value,
    value: Value,
    span: Span,
)
    requires
        flat_body(b),
    ensures
        flat_body((#[trigger] b.combine(state, value, span)).0),
{
    broadcast use {flat_types, emit_stays_flat};

    reveal(BodyView::combine);
}

pub(crate) broadcast proof fn struct_hash_stays_flat<'a>(
    b: BodyView<'a>,
    fields: Seq<FieldView>,
    span: Span,
)
    requires
        flat_body(b),
        flat_declared(fields),
    ensures
        flat_body((#[trigger] b.struct_hash(fields, span)).0),
{
    broadcast use {
        flat_types, refuse_stays_flat, hash_start_stays_flat, hash_fields_stays_flat,
        terminate_stays_flat,
    };

    reveal(BodyView::struct_hash);
}

pub(crate) broadcast proof fn hash_fields_stays_flat<'a>(
    b: BodyView<'a>,
    first: Value,
    value: Value,
    variant: Option<u32>,
    fields: Seq<FieldView>,
    span: Span,
    count: nat,
)
    requires
        flat_body(b),
        flat_declared(fields),
        count <= fields.len(),
    ensures
        flat_body((#[trigger] b.hash_fields(first, value, variant, fields, span, count)).0),
    decreases count,
{
    broadcast use {flat_types, emit_stays_flat, hash_stays_flat, combine_stays_flat};

    reveal(BodyView::hash_fields);
    if count > 0 {
        hash_fields_stays_flat(b, first, value, variant, fields, span, (count - 1) as nat);
    }
}

pub(crate) broadcast proof fn hash_stays_flat<'a>(
    b: BodyView<'a>,
    value: Value,
    ty: TyView,
    span: Span,
)
    requires
        flat_body(b),
        flat(ty),
    ensures
        flat_body((#[trigger] b.hash(value, ty, span)).0),
{
    broadcast use {flat_types, emit_stays_flat};

    reveal(BodyView::hash);
}

pub(crate) broadcast proof fn enum_hash_stays_flat<'a>(
    b: BodyView<'a>,
    variants: Seq<VariantView>,
    span: Span,
)
    requires
        flat_body(b),
        flat_variants(variants),
    ensures
        flat_body((#[trigger] b.enum_hash(variants, span)).0),
{
    broadcast use {
        flat_types, refuse_stays_flat, emit_stays_flat, hash_start_stays_flat, combine_stays_flat,
        hash_variants_stays_flat, choose_variant_stays_flat,
    };

    reveal(BodyView::enum_hash);
}

pub(crate) broadcast proof fn hash_variants_stays_flat<'a>(
    b: BodyView<'a>,
    state: Value,
    value: Value,
    variants: Seq<VariantView>,
    span: Span,
    count: nat,
)
    requires
        flat_body(b),
        flat_variants(variants),
        count <= variants.len(),
    ensures
        flat_body((#[trigger] b.hash_variants(state, value, variants, span, count)).0),
    decreases count,
{
    broadcast use {
        flat_types, add_block_stays_flat, switch_to_stays_flat, hash_fields_stays_flat,
        terminate_stays_flat,
    };

    reveal(BodyView::hash_variants);
    if count > 0 {
        hash_variants_stays_flat(b, state, value, variants, span, (count - 1) as nat);
    }
}

pub(crate) broadcast proof fn string_stays_flat<'a>(
    b: BodyView<'a>,
    text: Seq<char>,
    span: Span,
)
    requires
        flat_body(b),
    ensures
        flat_body((#[trigger] b.string(text, span)).0),
{
    broadcast use {flat_types, emit_stays_flat};

    reveal(BodyView::string);
}

pub(crate) broadcast proof fn concat_values_stays_flat<'a>(
    b: BodyView<'a>,
    left: Value,
    right: Value,
    span: Span,
)
    requires
        flat_body(b),
    ensures
        flat_body((#[trigger] b.concat_values(left, right, span)).0),
{
    broadcast use {flat_types, emit_stays_flat};

    reveal(BodyView::concat_values);
}

pub(crate) broadcast proof fn append_text_stays_flat<'a>(
    b: BodyView<'a>,
    left: Value,
    text: Seq<char>,
    span: Span,
)
    requires
        flat_body(b),
    ensures
        flat_body((#[trigger] b.append_text(left, text, span)).0),
{
    broadcast use {flat_types, string_stays_flat, concat_values_stays_flat};

    reveal(BodyView::append_text);
}

pub(crate) broadcast proof fn struct_display_stays_flat<'a>(
    b: BodyView<'a>,
    owner: TypeId,
    fields: Seq<FieldView>,
    span: Span,
)
    requires
        flat_body(b),
        flat_declared(fields),
    ensures
        flat_body((#[trigger] b.struct_display(owner, fields, span)).0),
{
    broadcast use {
        flat_types, refuse_stays_flat, string_stays_flat, display_fields_stays_flat,
        append_text_stays_flat, terminate_stays_flat,
    };

    reveal(BodyView::struct_display);
}

pub(crate) broadcast proof fn display_fields_stays_flat<'a>(
    b: BodyView<'a>,
    first: Value,
    value: Value,
    variant: Option<u32>,
    named: bool,
    fields: Seq<FieldView>,
    span: Span,
    count: nat,
)
    requires
        flat_body(b),
        flat_declared(fields),
        count <= fields.len(),
    ensures
        flat_body(
            (#[trigger] b.display_fields(first, value, variant, named, fields, span, count)).0,
        ),
    decreases count,
{
    broadcast use {
        flat_types, append_text_stays_flat, emit_stays_flat, display_derived_stays_flat,
        concat_values_stays_flat,
    };

    reveal(BodyView::display_fields);
    if count > 0 {
        display_fields_stays_flat(
            b,
            first,
            value,
            variant,
            named,
            fields,
            span,
            (count - 1) as nat,
        );
    }
}

pub(crate) broadcast proof fn enum_display_stays_flat<'a>(
    b: BodyView<'a>,
    owner: TypeId,
    variants: Seq<VariantView>,
    span: Span,
)
    requires
        flat_body(b),
        flat_variants(variants),
    ensures
        flat_body((#[trigger] b.enum_display(owner, variants, span)).0),
{
    broadcast use {
        flat_types, refuse_stays_flat, emit_stays_flat, display_variants_stays_flat,
        choose_variant_stays_flat,
    };

    reveal(BodyView::enum_display);
}

pub(crate) broadcast proof fn display_variants_stays_flat<'a>(
    b: BodyView<'a>,
    name: Seq<char>,
    value: Value,
    variants: Seq<VariantView>,
    span: Span,
    count: nat,
)
    requires
        flat_body(b),
        flat_variants(variants),
        count <= variants.len(),
    ensures
        flat_body((#[trigger] b.display_variants(name, value, variants, span, count)).0),
    decreases count,
{
    broadcast use {
        flat_types, add_block_stays_flat, switch_to_stays_flat, string_stays_flat,
        display_fields_stays_flat, append_text_stays_flat, terminate_stays_flat,
    };

    reveal(BodyView::display_variants);
    if count > 0 {
        display_variants_stays_flat(b, name, value, variants, span, (count - 1) as nat);
    }
}

pub(crate) broadcast proof fn display_bool_stays_flat<'a>(
    b: BodyView<'a>,
    value: Value,
    span: Span,
)
    requires
        flat_body(b),
    ensures
        flat_body((#[trigger] b.display_bool(value, span)).0),
{
    broadcast use {
        flat_types, add_block_stays_flat, branch_stays_flat, switch_to_stays_flat,
        string_stays_flat, jump_with_stays_flat, add_block_param_stays_flat,
    };

    reveal(BodyView::display_bool);
}

pub(crate) broadcast proof fn split_optional_stays_flat<'a>(
    b: BodyView<'a>,
    value: Value,
    span: Span,
)
    requires
        flat_body(b),
    ensures
        flat_body((#[trigger] b.split_optional(value, span)).0),
{
    broadcast use {flat_types, add_block_stays_flat, emit_stays_flat, branch_stays_flat};

    reveal(BodyView::split_optional);
}

pub(crate) broadcast proof fn finish_optional_stays_flat<'a>(
    b: BodyView<'a>,
    text: Value,
    ways: Ways,
    span: Span,
)
    requires
        flat_body(b),
    ensures
        flat_body((#[trigger] b.finish_optional(text, ways, span)).0),
{
    broadcast use {
        flat_types, jump_with_stays_flat, switch_to_stays_flat, string_stays_flat,
        add_block_param_stays_flat,
    };

    reveal(BodyView::finish_optional);
}

pub(crate) broadcast proof fn display_derived_stays_flat<'a>(
    b: BodyView<'a>,
    value: Value,
    ty: TyView,
    span: Span,
)
    requires
        flat_body(b),
        flat(ty),
    ensures
        flat_body((#[trigger] b.display_derived(value, ty, span)).0),
    decreases ty,
{
    broadcast use {
        flat_types, emit_stays_flat, display_bool_stays_flat, split_optional_stays_flat,
        switch_to_stays_flat, finish_optional_stays_flat,
    };

    reveal(BodyView::display_derived);
    match ty {
        TyView::Optional(inner) => {
            assert(optional_inner_view(ty) == Some(*inner));
            let (split, ways) = b.split_optional(value, span);
            let (there, held) = split.switch_to(ways.found).emit(
                InstKindView::Unwrap { value },
                *inner,
                span,
            );
            assert(flat_body(there));
            display_derived_stays_flat(there, held, *inner, span);
        },
        _ => {},
    }
}

pub(crate) broadcast proof fn builtin_stays_flat<'a>(
    b: BodyView<'a>,
    builtin: BuiltinCall,
    callee: Expr,
    args: Seq<Given<'a>>,
    span: Span,
    deeper: Deeper<'a>,
)
    requires
        flat_body(b),
        flat_inside(deeper),
    ensures
        flat_body((#[trigger] b.builtin(builtin, callee, args, span, deeper)).0),
{
    broadcast use {
        flat_types, expr_stays_flat, recorded_stays_flat, emit_stays_flat, checked_index_stays_flat,
        contains_stays_flat, ok_or_stays_flat, map_err_stays_flat, collection_mutation_stays_flat,
        overflow_method_stays_flat, intrinsic_stays_flat,
    };

    reveal(BodyView::builtin);
}

pub(crate) broadcast proof fn memory_method_stays_flat<'a>(
    b: BodyView<'a>,
    callee: Expr,
    name: Seq<char>,
    target: TyView,
    args: Seq<Given<'a>>,
    span: Span,
    deeper: Deeper<'a>,
)
    requires
        flat_body(b),
        flat_inside(deeper),
        flat(target),
    ensures
        flat_body((#[trigger] b.memory_method(callee, name, target, args, span, deeper)).0),
{
    broadcast use {
        flat_types, expr_stays_flat, emit_stays_flat, stored_stays_flat, emit_void_stays_flat,
        unit_stays_flat, missing_stays_flat,
    };

    reveal(BodyView::memory_method);
}

pub(crate) broadcast proof fn intrinsic_stays_flat<'a>(
    b: BodyView<'a>,
    intrinsic: Intrinsic,
    args: Seq<Given<'a>>,
    span: Span,
    deeper: Deeper<'a>,
)
    requires
        flat_body(b),
        flat_inside(deeper),
    ensures
        flat_body((#[trigger] b.intrinsic(intrinsic, args, span, deeper)).0),
{
    broadcast use {
        flat_types, recorded_stays_flat, missing_stays_flat, emit_stays_flat, expr_stays_flat,
        print_stays_flat, unit_stays_flat, assertion_stays_flat,
    };

    reveal(BodyView::intrinsic);
}

pub(crate) broadcast proof fn print_stays_flat<'a>(
    b: BodyView<'a>,
    args: Seq<Given<'a>>,
    span: Span,
    deeper: Deeper<'a>,
)
    requires
        flat_body(b),
        flat_inside(deeper),
    ensures
        flat_body((#[trigger] b.print(args, span, deeper)).0),
{
    broadcast use {
        flat_types, emit_stays_flat, emit_void_stays_flat, unit_stays_flat, run_each_stays_flat,
        missing_stays_flat, expr_stays_flat, display_stays_flat,
    };

    reveal(BodyView::print);
}

pub(crate) broadcast proof fn run_each_stays_flat<'a>(
    b: BodyView<'a>,
    args: Seq<Given<'a>>,
    deeper: Deeper<'a>,
    count: nat,
)
    requires
        flat_body(b),
        flat_inside(deeper),
        count <= args.len(),
    ensures
        flat_body(#[trigger] b.run_each(args, deeper, count)),
    decreases count,
{
    broadcast use {flat_types, expr_stays_flat};

    reveal(BodyView::run_each);
    if count > 0 {
        run_each_stays_flat(b, args, deeper, (count - 1) as nat);
    }
}

pub(crate) broadcast proof fn assertion_stays_flat<'a>(
    b: BodyView<'a>,
    args: Seq<Given<'a>>,
    span: Span,
    deeper: Deeper<'a>,
)
    requires
        flat_body(b),
        flat_inside(deeper),
    ensures
        flat_body((#[trigger] b.assertion(args, span, deeper)).0),
{
    broadcast use {
        flat_types, assertion_values_stays_flat, missing_stays_flat, emit_void_stays_flat,
        unit_stays_flat,
    };

    reveal(BodyView::assertion);
}

pub(crate) broadcast proof fn assertion_values_stays_flat<'a>(
    b: BodyView<'a>,
    args: Seq<Given<'a>>,
    slots: Seq<bool>,
    deeper: Deeper<'a>,
    count: nat,
)
    requires
        flat_body(b),
        flat_inside(deeper),
        count <= args.len(),
    ensures
        flat_body((#[trigger] b.assertion_values(args, slots, deeper, count)).0),
    decreases count,
{
    broadcast use {flat_types, expr_stays_flat};

    reveal(BodyView::assertion_values);
    if count > 0 {
        assertion_values_stays_flat(b, args, slots, deeper, (count - 1) as nat);
    }
}

pub(crate) broadcast proof fn checked_index_stays_flat<'a>(
    b: BodyView<'a>,
    callee: Expr,
    args: Seq<Given<'a>>,
    span: Span,
    deeper: Deeper<'a>,
)
    requires
        flat_body(b),
        flat_inside(deeper),
    ensures
        flat_body((#[trigger] b.checked_index(callee, args, span, deeper)).0),
{
    broadcast use {
        flat_types, expr_stays_flat, missing_stays_flat, recorded_stays_flat, emit_stays_flat,
    };

    reveal(BodyView::checked_index);
}

pub(crate) broadcast proof fn collection_mutation_stays_flat<'a>(
    b: BodyView<'a>,
    mutation: CollectionMutation,
    callee: Expr,
    args: Seq<Given<'a>>,
    span: Span,
    deeper: Deeper<'a>,
)
    requires
        flat_body(b),
        flat_inside(deeper),
    ensures
        flat_body((#[trigger] b.collection_mutation(mutation, callee, args, span, deeper)).0),
{
    broadcast use {
        flat_types, expr_stays_flat, missing_stays_flat, recorded_stays_flat, emit_stays_flat,
        emit_void_stays_flat, unit_stays_flat,
    };

    reveal(BodyView::collection_mutation);
}

pub(crate) broadcast proof fn contains_stays_flat<'a>(
    b: BodyView<'a>,
    callee: Expr,
    args: Seq<Given<'a>>,
    span: Span,
    deeper: Deeper<'a>,
)
    requires
        flat_body(b),
        flat_inside(deeper),
    ensures
        flat_body((#[trigger] b.contains(callee, args, span, deeper)).0),
{
    broadcast use {flat_types, expr_stays_flat, missing_stays_flat, emit_stays_flat};

    reveal(BodyView::contains);
}

pub(crate) broadcast proof fn ok_or_stays_flat<'a>(
    b: BodyView<'a>,
    callee: Expr,
    args: Seq<Given<'a>>,
    span: Span,
    deeper: Deeper<'a>,
)
    requires
        flat_body(b),
        flat_inside(deeper),
    ensures
        flat_body((#[trigger] b.ok_or(callee, args, span, deeper)).0),
{
    broadcast use {
        flat_types, expr_stays_flat, missing_stays_flat, recorded_stays_flat, stored_stays_flat,
        add_block_stays_flat, emit_stays_flat, branch_stays_flat, switch_to_stays_flat,
        variant_with_stays_flat, jump_with_stays_flat, add_block_param_stays_flat,
    };

    reveal(BodyView::ok_or);
}

pub(crate) broadcast proof fn map_err_stays_flat<'a>(
    b: BodyView<'a>,
    callee: Expr,
    args: Seq<Given<'a>>,
    span: Span,
    deeper: Deeper<'a>,
)
    requires
        flat_body(b),
        flat_inside(deeper),
    ensures
        flat_body((#[trigger] b.map_err(callee, args, span, deeper)).0),
{
    broadcast use {
        flat_types, expr_stays_flat, missing_stays_flat, recorded_stays_flat, add_block_stays_flat,
        error_test_stays_flat, switch_to_stays_flat, payload_stays_flat, emit_stays_flat,
        caught_or_raised_stays_flat, variant_with_stays_flat, jump_with_stays_flat,
        add_block_param_stays_flat,
    };

    reveal(BodyView::map_err);
}

pub(crate) broadcast proof fn overflow_method_stays_flat<'a>(
    b: BodyView<'a>,
    method: OverflowMethod,
    callee: Expr,
    args: Seq<Given<'a>>,
    span: Span,
    deeper: Deeper<'a>,
)
    requires
        flat_body(b),
        flat_inside(deeper),
    ensures
        flat_body((#[trigger] b.overflow_method(method, callee, args, span, deeper)).0),
{
    broadcast use {
        flat_types, missing_stays_flat, recorded_stays_flat, expr_stays_flat, emit_stays_flat,
    };

    reveal(BodyView::overflow_method);
}

pub(crate) broadcast proof fn call_stays_flat<'a>(
    b: BodyView<'a>,
    callee: Expr,
    method: Option<Seq<char>>,
    args: Seq<Given<'a>>,
    span: Span,
    deeper: Deeper<'a>,
)
    requires
        flat_body(b),
        flat_inside(deeper),
    ensures
        flat_body((#[trigger] b.call(callee, method, args, span, deeper)).0),
{
    broadcast use {
        flat_types, builtin_stays_flat, construction_stays_flat, construct_stays_flat,
        call_resolved_stays_flat,
    };

    reveal(BodyView::call);
}

pub(crate) broadcast proof fn construction_stays_flat<'a>(
    b: BodyView<'a>,
    callee: Expr,
    span: Span,
)
    requires
        flat_body(b),
    ensures
        flat_body((#[trigger] b.construction(callee, span)).0),
        b.construction(callee, span).1 matches Some(built) ==> flat(built.0),
{
    broadcast use {flat_types, recorded_stays_flat, variant_called_stays_flat};

    reveal(BodyView::construction);
}

pub(crate) broadcast proof fn variant_called_stays_flat<'a>(
    b: BodyView<'a>,
    name: Seq<char>,
    span: Span,
)
    requires
        flat_body(b),
    ensures
        flat_body((#[trigger] b.variant_called(name, span)).0),
        b.variant_called(name, span).1 matches Some(built) ==> flat(built.0),
{
    broadcast use {flat_types, recorded_stays_flat};

    reveal(BodyView::variant_called);
}

pub(crate) broadcast proof fn call_resolved_stays_flat<'a>(
    b: BodyView<'a>,
    callee: Expr,
    method: Option<Seq<char>>,
    args: Seq<Given<'a>>,
    span: Span,
    deeper: Deeper<'a>,
)
    requires
        flat_body(b),
        flat_inside(deeper),
    ensures
        flat_body((#[trigger] b.call_resolved(callee, method, args, span, deeper)).0),
{
    broadcast use {
        flat_types, through_stays_flat, memory_method_stays_flat, missing_stays_flat,
        expr_stays_flat, call_declared_stays_flat,
    };

    reveal(BodyView::call_resolved);
}

pub(crate) broadcast proof fn call_declared_stays_flat<'a>(
    b: BodyView<'a>,
    declaration: Span,
    receiver: Option<Value>,
    args: Seq<Given<'a>>,
    span: Span,
    deeper: Deeper<'a>,
)
    requires
        flat_body(b),
        flat_inside(deeper),
    ensures
        flat_body((#[trigger] b.call_declared(declaration, receiver, args, span, deeper)).0),
{
    broadcast use {flat_types, dispatch_stays_flat, missing_stays_flat, call_reached_stays_flat};

    reveal(BodyView::call_declared);
}

pub(crate) broadcast proof fn call_reached_stays_flat<'a>(
    b: BodyView<'a>,
    reached: CalleeView<'a>,
    receiver: Option<Value>,
    args: Seq<Given<'a>>,
    span: Span,
    deeper: Deeper<'a>,
)
    requires
        flat_body(b),
        flat_inside(deeper),
        flat_callee(reached),
    ensures
        flat_body((#[trigger] b.call_reached(reached, receiver, args, span, deeper)).0),
{
    broadcast use {
        flat_types, missing_stays_flat, given_values_stays_flat, supply_stays_flat, emit_stays_flat,
        finish_call_stays_flat,
    };

    reveal(BodyView::call_reached);
}

pub(crate) broadcast proof fn finish_call_stays_flat<'a>(
    b: BodyView<'a>,
    kind: InstKindView,
    throws: bool,
    asynchronous: bool,
    span: Span,
    deeper: Deeper<'a>,
)
    requires
        flat_body(b),
        flat_inside(deeper),
        flat_kind(kind),
    ensures
        flat_body((#[trigger] b.finish_call(kind, throws, asynchronous, span, deeper)).0),
{
    broadcast use {flat_types, recorded_stays_flat, finish_typed_stays_flat};

    reveal(BodyView::finish_call);
}

pub(crate) broadcast proof fn finish_typed_stays_flat<'a>(
    b: BodyView<'a>,
    kind: InstKindView,
    throws: bool,
    asynchronous: bool,
    result: TyView,
    span: Span,
    deeper: Deeper<'a>,
)
    requires
        flat_body(b),
        flat_inside(deeper),
        flat_kind(kind),
        flat(result),
    ensures
        flat_body((#[trigger] b.finish_typed(kind, throws, asynchronous, result, span, deeper)).0),
{
    broadcast use {
        flat_types, missing_stays_flat, emit_stays_flat, completed_task_stays_flat,
        completed_result_stays_flat, caught_or_raised_stays_flat,
    };

    reveal(BodyView::finish_typed);
}

pub(crate) broadcast proof fn given_values_stays_flat<'a>(
    b: BodyView<'a>,
    args: Seq<Given<'a>>,
    slots: Seq<Option<usize>>,
    wanted: Seq<TyView>,
    deeper: Deeper<'a>,
    count: nat,
)
    requires
        flat_body(b),
        flat_inside(deeper),
        flat_all(wanted),
        count <= args.len(),
    ensures
        flat_body((#[trigger] b.given_values(args, slots, wanted, deeper, count)).0),
    decreases count,
{
    broadcast use {flat_types, stored_stays_flat};

    reveal(BodyView::given_values);
    if count > 0 {
        given_values_stays_flat(b, args, slots, wanted, deeper, (count - 1) as nat);
    }
}

pub(crate) broadcast proof fn supply_stays_flat<'a>(
    b: BodyView<'a>,
    reached: CalleeView<'a>,
    variadic: Option<usize>,
    filled: Seq<Option<Value>>,
    wanted: Seq<TyView>,
    limit: nat,
    deeper: Deeper<'a>,
    count: nat,
)
    requires
        flat_body(b),
        flat_inside(deeper),
        flat_callee(reached),
        flat_all(wanted),
        count <= filled.len(),
    ensures
        flat_body((#[trigger] b.supply(reached, variadic, filled, wanted, limit, deeper, count)).0),
    decreases count,
{
    broadcast use {flat_types, stored_stays_flat};

    reveal(BodyView::supply);
    if count > 0 {
        supply_stays_flat(b, reached, variadic, filled, wanted, limit, deeper, (count - 1) as nat);
    }
}

pub(crate) broadcast proof fn through_stays_flat<'a>(
    b: BodyView<'a>,
    callee: Expr,
    args: Seq<Given<'a>>,
    span: Span,
    deeper: Deeper<'a>,
)
    requires
        flat_body(b),
        flat_inside(deeper),
    ensures
        flat_body((#[trigger] b.through(callee, args, span, deeper)).0),
{
    broadcast use {
        flat_types, expr_stays_flat, missing_stays_flat, pass_each_stays_flat,
        finish_typed_stays_flat,
    };

    reveal(BodyView::through);
}

pub(crate) broadcast proof fn pass_each_stays_flat<'a>(
    b: BodyView<'a>,
    args: Seq<Given<'a>>,
    types: Seq<TyView>,
    deeper: Deeper<'a>,
    count: nat,
)
    requires
        flat_body(b),
        flat_inside(deeper),
        flat_all(types),
        count <= args.len(),
    ensures
        flat_body((#[trigger] b.pass_each(args, types, deeper, count)).0),
    decreases count,
{
    broadcast use {flat_types, stored_stays_flat};

    reveal(BodyView::pass_each);
    if count > 0 {
        pass_each_stays_flat(b, args, types, deeper, (count - 1) as nat);
    }
}

pub(crate) broadcast proof fn dispatch_stays_flat<'a>(
    b: BodyView<'a>,
    method: MethodId,
    receiver: Option<Value>,
    args: Seq<Given<'a>>,
    span: Span,
    deeper: Deeper<'a>,
)
    requires
        flat_body(b),
        flat_inside(deeper),
    ensures
        flat_body((#[trigger] b.dispatch(method, receiver, args, span, deeper)).0),
{
    broadcast use {flat_types, missing_stays_flat, pass_plain_stays_flat, finish_call_stays_flat};

    reveal(BodyView::dispatch);
}

pub(crate) broadcast proof fn pass_plain_stays_flat<'a>(
    b: BodyView<'a>,
    args: Seq<Given<'a>>,
    deeper: Deeper<'a>,
    count: nat,
)
    requires
        flat_body(b),
        flat_inside(deeper),
        count <= args.len(),
    ensures
        flat_body((#[trigger] b.pass_plain(args, deeper, count)).0),
    decreases count,
{
    broadcast use {flat_types, stored_stays_flat};

    reveal(BodyView::pass_plain);
    if count > 0 {
        pass_plain_stays_flat(b, args, deeper, (count - 1) as nat);
    }
}

pub(crate) broadcast proof fn closure_stays_flat<'a>(
    b: BodyView<'a>,
    asynchronous: bool,
    params: Seq<Param>,
    body: FunctionBody,
    span: Span,
    deeper: Deeper<'a>,
)
    requires
        flat_body(b),
        flat_inside(deeper),
    ensures
        flat_body((#[trigger] b.closure(asynchronous, params, body, span, deeper)).0),
{
    broadcast use {
        flat_types, recorded_stays_flat, missing_stays_flat, lower_closure_stays_flat,
        emit_stays_flat,
    };

    reveal(BodyView::closure);
}

pub(crate) broadcast proof fn lower_into_stays_flat<'a>(
    b: BodyView<'a>,
    closure: bool,
    captured: Seq<Seq<char>>,
    types: Seq<TyView>,
    bindings: Seq<Bound<'a>>,
    body: FunctionBody,
    deeper: Deeper<'a>,
)
    requires
        flat_body(b),
        flat_inside(deeper),
        flat_all(types),
    ensures
        flat_body(#[trigger] b.lower_into(closure, captured, types, bindings, body, deeper)),
{
    broadcast use {
        flat_types, enter_stays_flat, block_stays_flat, open_stays_flat, ret_stays_flat,
        close_stays_flat, run_off_stays_flat,
    };

    reveal(BodyView::lower_into);
}

pub(crate) broadcast proof fn lower_block_stays_flat<'a>(
    b: BodyView<'a>,
    bindings: Seq<Bound<'a>>,
    block: Block,
    deeper: Deeper<'a>,
)
    requires
        flat_body(b),
        flat_inside(deeper),
    ensures
        flat_body(#[trigger] b.lower_block(bindings, block, deeper)),
{
    broadcast use {flat_types, enter_stays_flat, block_stays_flat, run_off_stays_flat};

    reveal(BodyView::lower_block);
}

pub(crate) broadcast proof fn enter_stays_flat<'a>(
    b: BodyView<'a>,
    closure: bool,
    captured: Seq<Seq<char>>,
    types: Seq<TyView>,
    bindings: Seq<Bound<'a>>,
    span: Span,
    deeper: Deeper<'a>,
)
    requires
        flat_body(b),
        flat_inside(deeper),
        flat_all(types),
    ensures
        flat_body(#[trigger] b.enter(closure, captured, types, bindings, span, deeper)),
{
    broadcast use {flat_types, bind_captured_stays_flat, bind_entry_stays_flat};

    reveal(BodyView::enter);
}

pub(crate) broadcast proof fn run_off_stays_flat<'a>(
    b: BodyView<'a>,
    span: Span,
)
    requires
        flat_body(b),
    ensures
        flat_body(#[trigger] b.run_off(span)),
{
    broadcast use {flat_types, unit_stays_flat, returned_stays_flat, terminate_stays_flat};

    reveal(BodyView::run_off);
}

pub(crate) broadcast proof fn bind_captured_stays_flat<'a>(
    b: BodyView<'a>,
    object: Value,
    captured: Seq<Seq<char>>,
    types: Seq<TyView>,
    span: Span,
    count: nat,
)
    requires
        flat_body(b),
        flat_all(types),
        count <= captured.len(),
    ensures
        flat_body(#[trigger] b.bind_captured(object, captured, types, span, count)),
    decreases count,
{
    broadcast use {flat_types, emit_stays_flat, bind_name_stays_flat};

    reveal(BodyView::bind_captured);
    if count > 0 {
        bind_captured_stays_flat(b, object, captured, types, span, (count - 1) as nat);
    }
}

pub(crate) broadcast proof fn bind_entry_stays_flat<'a>(
    b: BodyView<'a>,
    bindings: Seq<Bound<'a>>,
    passed: Seq<Value>,
    span: Span,
    deeper: Deeper<'a>,
    count: nat,
)
    requires
        flat_body(b),
        flat_inside(deeper),
        count <= bindings.len(),
    ensures
        flat_body(#[trigger] b.bind_entry(bindings, passed, span, deeper, count)),
    decreases count,
{
    broadcast use {flat_types, bind_name_stays_flat, bind_value_stays_flat};

    reveal(BodyView::bind_entry);
    if count > 0 {
        bind_entry_stays_flat(b, bindings, passed, span, deeper, (count - 1) as nat);
    }
}

#[verifier::rlimit(40)]
pub(crate) broadcast proof fn lower_closure_stays_flat<'a>(
    b: BodyView<'a>,
    ty: TyView,
    captures: CapturesView,
    params: Seq<Param>,
    body: FunctionBody,
    span: Span,
    deeper: Deeper<'a>,
)
    requires
        flat_body(b),
        flat_inside(deeper),
        flat(ty),
    ensures
        flat_body((#[trigger] b.lower_closure(ty, captures, params, body, span, deeper)).0),
{
    broadcast use flat_types;

    reveal(BodyView::lower_closure);
    match function_of_view(ty) {
        Some(shape) => {
            if b.next_function < u32::MAX && shape.params.len() < id_limit() {
                let id = FuncId(b.next_function);
                let shell = FunctionView {
                    asynchronous: shape.asynchronous,
                    ..FunctionView::fresh(
                        closure_name(b.function.name, id),
                        seq![ty] + shape.params,
                        thrown_or_view(shape.result),
                        span,
                    )
                };
                let fresh = BodyView::fresh(
                    b.context,
                    shell,
                    true,
                    in_body(Seq::empty(), body, Seeking::Assigned),
                    (b.next_function + 1) as u32,
                );
                let types = captured_types(b, captures.vars);
                let bound = bound_params_view(params);
                assert(flat_function(shell)) by {
                    reveal(flat_function);
                }
                assert(flat_context(b.context)) by {
                    reveal(flat_body);
                }
                a_fresh_body_is_flat(
                    b.context,
                    shell,
                    true,
                    in_body(Seq::empty(), body, Seeking::Assigned),
                    (b.next_function + 1) as u32,
                );
                lower_into_stays_flat(fresh, true, captures.names, types, bound, body, deeper);
                let inner = fresh.lower_into(true, captures.names, types, bound, body, deeper);
                let after = b.lower_closure(ty, captures, params, body, span, deeper).0;
                reveal(flat_body);
                assert forall|i: int| 0 <= i < after.made.len() implies flat_function(
                    (#[trigger] after.made[i]).1,
                ) by {
                    if i < b.made.len() {
                        assert(after.made[i] == b.made[i]);
                    } else if i > b.made.len() {
                        assert(after.made[i] == inner.made[i - b.made.len() - 1]);
                    }
                }
            }
        },
        None => {},
    }
}

pub(crate) broadcast proof fn counted_stays_flat<'a>(
    b: BodyView<'a>,
    bindings: Seq<Binding>,
    iterable: Expr,
    span: Span,
    deeper: Deeper<'a>,
)
    requires
        flat_body(b),
        flat_inside(deeper),
    ensures
        flat_body((#[trigger] b.counted(bindings, iterable, span, deeper)).0),
        b.counted(
            bindings,
            iterable,
            span,
            deeper,
        ).1 matches Some(counted) ==> flat(counted.element),
{
    broadcast use {
        flat_types, uncounted_stays_flat, counter_type_stays_flat, expr_stays_flat,
        declare_stays_flat, counted_down_stays_flat, counted_through_stays_flat,
    };

    reveal(BodyView::counted);
}

pub(crate) broadcast proof fn uncounted_stays_flat<'a>(
    b: BodyView<'a>,
    span: Span,
    what: Seq<char>,
)
    requires
        flat_body(b),
    ensures
        flat_body((#[trigger] b.uncounted(span, what)).0),
        b.uncounted(span, what).1 matches Some(counted) ==> flat(counted.element),
{
    broadcast use {flat_types, gap_stays_flat};

    reveal(BodyView::uncounted);
}

pub(crate) broadcast proof fn counter_type_stays_flat<'a>(
    b: BodyView<'a>,
    start: Expr,
    span: Span,
)
    requires
        flat_body(b),
    ensures
        flat_body((#[trigger] b.counter_type(start, span)).0),
        flat(b.counter_type(start, span).1),
{
    broadcast use {flat_types, declared_type_stays_flat};

    reveal(BodyView::counter_type);
}

pub(crate) broadcast proof fn counted_down_stays_flat<'a>(
    b: BodyView<'a>,
    callee: Expr,
    span: Span,
    deeper: Deeper<'a>,
)
    requires
        flat_body(b),
        flat_inside(deeper),
    ensures
        flat_body((#[trigger] b.counted_down(callee, span, deeper)).0),
        b.counted_down(callee, span, deeper).1 matches Some(counted) ==> flat(counted.element),
{
    broadcast use {
        flat_types, uncounted_stays_flat, counter_type_stays_flat, expr_stays_flat,
        declare_stays_flat,
    };

    reveal(BodyView::counted_down);
}

pub(crate) broadcast proof fn counted_through_stays_flat<'a>(
    b: BodyView<'a>,
    iterable: Expr,
    indexed: bool,
    span: Span,
    deeper: Deeper<'a>,
)
    requires
        flat_body(b),
        flat_inside(deeper),
    ensures
        flat_body((#[trigger] b.counted_through(iterable, indexed, span, deeper)).0),
        b.counted_through(
            iterable,
            indexed,
            span,
            deeper,
        ).1 matches Some(counted) ==> flat(counted.element),
{
    broadcast use {
        flat_types, expr_stays_flat, uncounted_stays_flat, emit_stays_flat, declare_stays_flat,
    };

    reveal(BodyView::counted_through);
}

pub(crate) broadcast proof fn for_stmt_stays_flat<'a>(
    b: BodyView<'a>,
    label: Option<Seq<char>>,
    bindings: Seq<Binding>,
    iterable: Expr,
    body: Block,
    span: Span,
    deeper: Deeper<'a>,
)
    requires
        flat_body(b),
        flat_inside(deeper),
    ensures
        flat_body(#[trigger] b.for_stmt(label, bindings, iterable, body, span, deeper)),
{
    broadcast use {
        flat_types, add_block_stays_flat, open_stays_flat, counted_stays_flat,
        for_counted_stays_flat,
    };

    reveal(BodyView::for_stmt);
}

pub(crate) broadcast proof fn for_counted_stays_flat<'a>(
    b: BodyView<'a>,
    label: Option<Seq<char>>,
    bindings: Seq<Binding>,
    counted: CountedView,
    carried: Seq<u32>,
    header: BlockId,
    body: Block,
    span: Span,
    deeper: Deeper<'a>,
)
    requires
        flat_body(b),
        flat_inside(deeper),
        flat(counted.element),
    ensures
        flat_body(
            #[trigger] b.for_counted(label, bindings, counted, carried, header, body, span, deeper),
        ),
{
    broadcast use {
        flat_types, set_def_stays_flat, jump_to_stays_flat, switch_to_stays_flat,
        add_params_stays_flat, bind_params_stays_flat, goes_on_stays_flat, add_block_stays_flat,
        terminate_stays_flat, restore_stays_flat, bind_counted_stays_flat, push_loop_stays_flat,
        block_stays_flat, pop_loop_stays_flat, stop_at_last_stays_flat, count_on_stays_flat,
        close_stays_flat,
    };

    reveal(BodyView::for_counted);
}

pub(crate) broadcast proof fn stop_at_last_stays_flat<'a>(
    b: BodyView<'a>,
    source: Source,
    current: Value,
    exit: BlockId,
    carried: Seq<u32>,
    span: Span,
)
    requires
        flat_body(b),
    ensures
        flat_body(#[trigger] b.stop_at_last(source, current, exit, carried, span)),
{
    broadcast use {
        flat_types, emit_stays_flat, add_block_stays_flat, terminate_stays_flat,
        switch_to_stays_flat,
    };

    reveal(BodyView::stop_at_last);
}

pub(crate) broadcast proof fn count_on_stays_flat<'a>(
    b: BodyView<'a>,
    source: Source,
    current: Value,
    element: TyView,
    span: Span,
)
    requires
        flat_body(b),
        flat(element),
    ensures
        flat_body((#[trigger] b.count_on(source, current, element, span)).0),
{
    broadcast use {flat_types, emit_stays_flat};

    reveal(BodyView::count_on);
}

pub(crate) broadcast proof fn goes_on_stays_flat<'a>(
    b: BodyView<'a>,
    source: Source,
    current: Value,
    span: Span,
)
    requires
        flat_body(b),
    ensures
        flat_body((#[trigger] b.goes_on(source, current, span)).0),
{
    broadcast use {flat_types, emit_stays_flat};

    reveal(BodyView::goes_on);
}

pub(crate) broadcast proof fn bind_counted_stays_flat<'a>(
    b: BodyView<'a>,
    counted: CountedView,
    current: Value,
    bindings: Seq<Binding>,
    step: BlockId,
    leaving: Seq<Value>,
    span: Span,
    deeper: Deeper<'a>,
)
    requires
        flat_body(b),
        flat_inside(deeper),
        flat(counted.element),
    ensures
        flat_body(
            #[trigger] b.bind_counted(counted, current, bindings, step, leaving, span, deeper),
        ),
{
    broadcast use {
        flat_types, emit_stays_flat, bind_each_stays_flat, add_block_stays_flat,
        terminate_stays_flat, switch_to_stays_flat, bind_entries_stays_flat,
    };

    reveal(BodyView::bind_counted);
}

pub(crate) broadcast proof fn bind_each_stays_flat<'a>(
    b: BodyView<'a>,
    bindings: Seq<Binding>,
    values: Seq<Value>,
    span: Span,
    deeper: Deeper<'a>,
    count: nat,
)
    requires
        flat_body(b),
        flat_inside(deeper),
        count <= bindings.len(),
    ensures
        flat_body(#[trigger] b.bind_each(bindings, values, span, deeper, count)),
    decreases count,
{
    broadcast use {flat_types, bind_value_stays_flat};

    reveal(BodyView::bind_each);
    if count > 0 {
        bind_each_stays_flat(b, bindings, values, span, deeper, (count - 1) as nat);
    }
}

pub(crate) broadcast proof fn bind_entries_stays_flat<'a>(
    b: BodyView<'a>,
    bindings: Seq<Binding>,
    receiver: Value,
    current: Value,
    held: Seq<TyView>,
    span: Span,
    deeper: Deeper<'a>,
    count: nat,
)
    requires
        flat_body(b),
        flat_inside(deeper),
        flat_all(held),
        count <= bindings.len(),
    ensures
        flat_body(
            #[trigger] b.bind_entries(bindings, receiver, current, held, span, deeper, count),
        ),
    decreases count,
{
    broadcast use {flat_types, emit_stays_flat, bind_value_stays_flat};

    reveal(BodyView::bind_entries);
    if count > 0 {
        bind_entries_stays_flat(
            b,
            bindings,
            receiver,
            current,
            held,
            span,
            deeper,
            (count - 1) as nat,
        );
    }
}

pub(crate) broadcast proof fn expr_within_stays_flat<'a>(
    b: BodyView<'a>,
    expr: Expr,
    wanted: Option<TyView>,
    deeper: Deeper<'a>,
)
    requires
        flat_body(b),
        flat_inside(deeper),
        flat_maybe(wanted),
    ensures
        flat_body((#[trigger] b.expr_within(expr, wanted, deeper)).0),
{
    broadcast use {flat_types, expr_value_stays_flat, coerce_stays_flat};

    reveal(BodyView::expr_within);
}

pub(crate) broadcast proof fn expr_value_stays_flat<'a>(
    b: BodyView<'a>,
    expr: Expr,
    wanted: Option<TyView>,
    deeper: Deeper<'a>,
)
    requires
        flat_body(b),
        flat_inside(deeper),
        flat_maybe(wanted),
    ensures
        flat_body((#[trigger] b.expr_value(expr, wanted, deeper)).0),
{
    broadcast use {
        flat_types, emit_stays_flat, numeric_stays_flat, interpolation_stays_flat, name_stays_flat,
        unary_stays_flat, binary_stays_flat, range_stays_flat, call_stays_flat, record_stays_flat,
        closure_stays_flat, list_stays_flat, map_stays_flat, set_stays_flat, index_stays_flat,
        field_stays_flat, tuple_stays_flat, if_expr_stays_flat, propagate_stays_flat,
        missing_stays_flat, recorded_stays_flat, expr_stays_flat, address_stays_flat,
    };

    reveal(BodyView::expr_value);
}

pub(crate) broadcast proof fn name_stays_flat<'a>(
    b: BodyView<'a>,
    name: Seq<char>,
    wanted: Option<TyView>,
    span: Span,
    deeper: Deeper<'a>,
)
    requires
        flat_body(b),
        flat_inside(deeper),
        flat_maybe(wanted),
    ensures
        flat_body((#[trigger] b.name(name, wanted, span, deeper)).0),
{
    broadcast use {flat_types, read_var_stays_flat, emit_stays_flat, constant_stays_flat};

    reveal(BodyView::name);
}

pub(crate) broadcast proof fn unary_stays_flat<'a>(
    b: BodyView<'a>,
    op: AstUnary,
    operand: Expr,
    wanted: Option<TyView>,
    span: Span,
    deeper: Deeper<'a>,
)
    requires
        flat_body(b),
        flat_inside(deeper),
        flat_maybe(wanted),
    ensures
        flat_body((#[trigger] b.unary(op, operand, wanted, span, deeper)).0),
{
    broadcast use {
        flat_types, call_stays_flat, settled_type_stays_flat, expr_stays_flat, emit_stays_flat,
    };

    reveal(BodyView::unary);
}

pub(crate) broadcast proof fn range_stays_flat<'a>(
    b: BodyView<'a>,
    start: Option<Box<Expr>>,
    end: Option<Box<Expr>>,
    span: Span,
    deeper: Deeper<'a>,
)
    requires
        flat_body(b),
        flat_inside(deeper),
    ensures
        flat_body((#[trigger] b.range(start, end, span, deeper)).0),
{
    broadcast use {flat_types, recorded_stays_flat, bound_stays_flat, emit_stays_flat};

    reveal(BodyView::range);
}

pub(crate) broadcast proof fn bound_stays_flat<'a>(
    b: BodyView<'a>,
    written: Option<Box<Expr>>,
    bound: TyView,
    span: Span,
    deeper: Deeper<'a>,
)
    requires
        flat_body(b),
        flat_inside(deeper),
        flat(bound),
    ensures
        flat_body((#[trigger] b.bound(written, bound, span, deeper)).0),
{
    broadcast use {flat_types, expr_stays_flat, emit_stays_flat};

    reveal(BodyView::bound);
}

pub(crate) broadcast proof fn tuple_stays_flat<'a>(
    b: BodyView<'a>,
    members: Seq<Expr>,
    wanted: Option<TyView>,
    span: Span,
    deeper: Deeper<'a>,
)
    requires
        flat_body(b),
        flat_inside(deeper),
        flat_maybe(wanted),
    ensures
        flat_body((#[trigger] b.tuple(members, wanted, span, deeper)).0),
{
    broadcast use {
        flat_types, unit_stays_flat, recorded_stays_flat, missing_stays_flat,
        each_member_stays_flat, emit_stays_flat,
    };

    reveal(BodyView::tuple);
}

pub(crate) broadcast proof fn each_member_stays_flat<'a>(
    b: BodyView<'a>,
    members: Seq<Expr>,
    types: Seq<TyView>,
    deeper: Deeper<'a>,
    count: nat,
)
    requires
        flat_body(b),
        flat_inside(deeper),
        flat_all(types),
        count <= members.len(),
    ensures
        flat_body((#[trigger] b.each_member(members, types, deeper, count)).0),
    decreases count,
{
    broadcast use {flat_types, expr_stays_flat};

    reveal(BodyView::each_member);
    if count > 0 {
        each_member_stays_flat(b, members, types, deeper, (count - 1) as nat);
    }
}

pub(crate) broadcast proof fn address_stays_flat<'a>(
    b: BodyView<'a>,
    mutable: bool,
    operand: Expr,
    span: Span,
    deeper: Deeper<'a>,
)
    requires
        flat_body(b),
        flat_inside(deeper),
    ensures
        flat_body((#[trigger] b.address(mutable, operand, span, deeper)).0),
{
    broadcast use {
        flat_types, missing_stays_flat, recorded_stays_flat, emit_stays_flat, expr_stays_flat,
        settled_stays_flat,
    };

    reveal(BodyView::address);
}

pub(crate) broadcast proof fn interpolation_stays_flat<'a>(
    b: BodyView<'a>,
    parts: Seq<InterpolationPart>,
    span: Span,
    deeper: Deeper<'a>,
)
    requires
        flat_body(b),
        flat_inside(deeper),
    ensures
        flat_body((#[trigger] b.interpolation(parts, span, deeper)).0),
{
    broadcast use {flat_types, emit_stays_flat, interpolated_stays_flat};

    reveal(BodyView::interpolation);
}

pub(crate) broadcast proof fn interpolated_stays_flat<'a>(
    b: BodyView<'a>,
    first: Value,
    parts: Seq<InterpolationPart>,
    span: Span,
    deeper: Deeper<'a>,
    count: nat,
)
    requires
        flat_body(b),
        flat_inside(deeper),
        count <= parts.len(),
    ensures
        flat_body((#[trigger] b.interpolated(first, parts, span, deeper, count)).0),
    decreases count,
{
    broadcast use {flat_types, emit_stays_flat, expr_stays_flat, display_stays_flat};

    reveal(BodyView::interpolated);
    if count > 0 {
        interpolated_stays_flat(b, first, parts, span, deeper, (count - 1) as nat);
    }
}

pub(crate) broadcast proof fn propagate_stays_flat<'a>(
    b: BodyView<'a>,
    inner: Expr,
    span: Span,
    deeper: Deeper<'a>,
)
    requires
        flat_body(b),
        flat_inside(deeper),
    ensures
        flat_body((#[trigger] b.propagate(inner, span, deeper)).0),
{
    broadcast use {
        flat_types, expr_stays_flat, missing_stays_flat, add_block_stays_flat,
        error_test_stays_flat, switch_to_stays_flat, payload_stays_flat,
        propagated_error_stays_flat, variant_with_stays_flat, unwind_from_stays_flat,
        returned_stays_flat, terminate_stays_flat,
    };

    reveal(BodyView::propagate);
}

pub(crate) broadcast proof fn propagated_error_stays_flat<'a>(
    b: BodyView<'a>,
    error: Value,
    wanted: TyView,
    span: Span,
)
    requires
        flat_body(b),
        flat(wanted),
    ensures
        flat_body((#[trigger] b.propagated_error(error, wanted, span)).0),
{
    broadcast use {flat_types, missing_stays_flat, emit_stays_flat};

    reveal(BodyView::propagated_error);
}

pub(crate) broadcast proof fn binary_stays_flat<'a>(
    b: BodyView<'a>,
    op: AstBinary,
    op_span: Span,
    left: Expr,
    right: Expr,
    span: Span,
    deeper: Deeper<'a>,
)
    requires
        flat_body(b),
        flat_inside(deeper),
    ensures
        flat_body((#[trigger] b.binary(op, op_span, left, right, span, deeper)).0),
{
    broadcast use {
        flat_types, nil_test_stays_flat, missing_stays_flat, through_protocol_stays_flat,
        logical_stays_flat, coalesce_stays_flat, operand_type_stays_flat, expr_stays_flat,
        emit_stays_flat,
    };

    reveal(BodyView::binary);
}

pub(crate) broadcast proof fn nil_test_stays_flat<'a>(
    b: BodyView<'a>,
    op: AstBinary,
    value: Expr,
    span: Span,
    deeper: Deeper<'a>,
)
    requires
        flat_body(b),
        flat_inside(deeper),
    ensures
        flat_body((#[trigger] b.nil_test(op, value, span, deeper)).0),
{
    broadcast use {flat_types, expr_stays_flat, emit_stays_flat};

    reveal(BodyView::nil_test);
}

pub(crate) broadcast proof fn through_protocol_stays_flat<'a>(
    b: BodyView<'a>,
    protocol: Seq<char>,
    method: Seq<char>,
    op: AstBinary,
    left: Expr,
    right: Expr,
    span: Span,
    deeper: Deeper<'a>,
)
    requires
        flat_body(b),
        flat_inside(deeper),
    ensures
        flat_body(
            (#[trigger] b.through_protocol(protocol, method, op, left, right, span, deeper)).0,
        ),
{
    broadcast use {flat_types, call_stays_flat, emit_stays_flat, missing_stays_flat};

    reveal(BodyView::through_protocol);
}

pub(crate) broadcast proof fn logical_stays_flat<'a>(
    b: BodyView<'a>,
    all: bool,
    left: Expr,
    right: Expr,
    span: Span,
    deeper: Deeper<'a>,
)
    requires
        flat_body(b),
        flat_inside(deeper),
    ensures
        flat_body((#[trigger] b.logical(all, left, right, span, deeper)).0),
{
    broadcast use {
        flat_types, expr_stays_flat, add_block_stays_flat, emit_stays_flat, terminate_stays_flat,
        switch_to_stays_flat, jump_with_stays_flat, add_block_param_stays_flat,
    };

    reveal(BodyView::logical);
}

pub(crate) broadcast proof fn coalesce_stays_flat<'a>(
    b: BodyView<'a>,
    left: Expr,
    right: Expr,
    span: Span,
    deeper: Deeper<'a>,
)
    requires
        flat_body(b),
        flat_inside(deeper),
    ensures
        flat_body((#[trigger] b.coalesce(left, right, span, deeper)).0),
{
    broadcast use {
        flat_types, recorded_stays_flat, expr_stays_flat, split_optional_stays_flat,
        give_present_stays_flat, switch_to_stays_flat, jump_with_stays_flat,
        add_block_param_stays_flat,
    };

    reveal(BodyView::coalesce);
}

pub(crate) broadcast proof fn give_present_stays_flat<'a>(
    b: BodyView<'a>,
    left: Value,
    ty: TyView,
    ways: Ways,
    span: Span,
)
    requires
        flat_body(b),
        flat(ty),
    ensures
        flat_body(#[trigger] b.give_present(left, ty, ways, span)),
{
    broadcast use {flat_types, switch_to_stays_flat, emit_stays_flat, jump_with_stays_flat};

    reveal(BodyView::give_present);
}

pub(crate) broadcast proof fn if_expr_stays_flat<'a>(
    b: BodyView<'a>,
    branches: Seq<IfBranch>,
    otherwise: Expr,
    span: Span,
    deeper: Deeper<'a>,
)
    requires
        flat_body(b),
        flat_inside(deeper),
    ensures
        flat_body((#[trigger] b.if_expr(branches, otherwise, span, deeper)).0),
{
    broadcast use {
        flat_types, recorded_stays_flat, add_block_stays_flat, if_values_stays_flat,
        expr_stays_flat, join_carrying_stays_flat,
    };

    reveal(BodyView::if_expr);
}

pub(crate) broadcast proof fn if_values_stays_flat<'a>(
    b: BodyView<'a>,
    branches: Seq<IfBranch>,
    ty: TyView,
    span: Span,
    deeper: Deeper<'a>,
    count: nat,
)
    requires
        flat_body(b),
        flat_inside(deeper),
        flat(ty),
        count <= branches.len(),
    ensures
        flat_body((#[trigger] b.if_values(branches, ty, span, deeper, count)).0),
    decreases count,
{
    broadcast use {
        flat_types, expr_stays_flat, add_block_stays_flat, branch_stays_flat, switch_to_stays_flat,
        restore_stays_flat,
    };

    reveal(BodyView::if_values);
    if count > 0 {
        if_values_stays_flat(b, branches, ty, span, deeper, (count - 1) as nat);
    }
}

pub(crate) broadcast proof fn block_within_stays_flat<'a>(
    b: BodyView<'a>,
    block: Block,
    deeper: Deeper<'a>,
)
    requires
        flat_body(b),
        flat_inside(deeper),
    ensures
        flat_body(#[trigger] b.block_within(block, deeper)),
{
    broadcast use {flat_types, open_stays_flat, stmts_stays_flat, close_stays_flat};

    reveal(BodyView::block_within);
}

pub(crate) broadcast proof fn stmts_within_stays_flat<'a>(
    b: BodyView<'a>,
    stmts: Seq<Stmt>,
    deeper: Deeper<'a>,
    count: nat,
)
    requires
        flat_body(b),
        flat_inside(deeper),
        count <= stmts.len(),
    ensures
        flat_body(#[trigger] b.stmts_within(stmts, deeper, count)),
    decreases count,
{
    broadcast use {flat_types, stmt_stays_flat};

    reveal(BodyView::stmts_within);
    if count > 0 {
        stmts_within_stays_flat(b, stmts, deeper, (count - 1) as nat);
    }
}

pub(crate) broadcast proof fn stmt_stays_flat<'a>(
    b: BodyView<'a>,
    stmt: Stmt,
    deeper: Deeper<'a>,
)
    requires
        flat_body(b),
        flat_inside(deeper),
    ensures
        flat_body(#[trigger] b.stmt(stmt, deeper)),
{
    broadcast use {
        flat_types, local_stays_flat, assign_stays_flat, ret_stays_flat, if_stmt_stays_flat,
        while_stmt_stays_flat, repeat_stmt_stays_flat, for_stmt_stays_flat, leave_stays_flat,
        match_stmt_stays_flat, defer_stays_flat, expr_stays_flat, raise_stays_flat,
        try_stmt_stays_flat, block_stays_flat,
    };

    reveal(BodyView::stmt);
}

pub(crate) broadcast proof fn local_stays_flat<'a>(
    b: BodyView<'a>,
    binding: Binding,
    value: Option<&'a Expr>,
    span: Span,
    deeper: Deeper<'a>,
)
    requires
        flat_body(b),
        flat_inside(deeper),
    ensures
        flat_body(#[trigger] b.local(binding, value, span, deeper)),
{
    broadcast use {
        flat_types, declared_type_stays_flat, stored_stays_flat, bind_value_stays_flat,
        declare_binding_stays_flat,
    };

    reveal(BodyView::local);
}

pub(crate) broadcast proof fn if_stmt_stays_flat<'a>(
    b: BodyView<'a>,
    branches: Seq<Branch>,
    otherwise: Option<Block>,
    span: Span,
    deeper: Deeper<'a>,
)
    requires
        flat_body(b),
        flat_inside(deeper),
    ensures
        flat_body(#[trigger] b.if_stmt(branches, otherwise, span, deeper)),
{
    broadcast use {
        flat_types, add_block_stays_flat, if_branches_stays_flat, block_stays_flat, join_stays_flat,
    };

    reveal(BodyView::if_stmt);
}

pub(crate) broadcast proof fn if_branches_stays_flat<'a>(
    b: BodyView<'a>,
    branches: Seq<Branch>,
    span: Span,
    deeper: Deeper<'a>,
    count: nat,
)
    requires
        flat_body(b),
        flat_inside(deeper),
        count <= branches.len(),
    ensures
        flat_body((#[trigger] b.if_branches(branches, span, deeper, count)).0),
    decreases count,
{
    broadcast use {
        flat_types, expr_stays_flat, add_block_stays_flat, branch_stays_flat, switch_to_stays_flat,
        block_stays_flat, restore_stays_flat,
    };

    reveal(BodyView::if_branches);
    if count > 0 {
        if_branches_stays_flat(b, branches, span, deeper, (count - 1) as nat);
    }
}

pub(crate) broadcast proof fn while_stmt_stays_flat<'a>(
    b: BodyView<'a>,
    label: Option<Seq<char>>,
    condition: Expr,
    body: Block,
    span: Span,
    deeper: Deeper<'a>,
)
    requires
        flat_body(b),
        flat_inside(deeper),
    ensures
        flat_body(#[trigger] b.while_stmt(label, condition, body, span, deeper)),
{
    broadcast use {
        flat_types, add_block_stays_flat, jump_to_stays_flat, switch_to_stays_flat,
        add_params_stays_flat, bind_params_stays_flat, expr_stays_flat, terminate_stays_flat,
        restore_stays_flat, push_loop_stays_flat, block_stays_flat, pop_loop_stays_flat,
    };

    reveal(BodyView::while_stmt);
}

pub(crate) broadcast proof fn repeat_stmt_stays_flat<'a>(
    b: BodyView<'a>,
    label: Option<Seq<char>>,
    body: Block,
    until: Expr,
    span: Span,
    deeper: Deeper<'a>,
)
    requires
        flat_body(b),
        flat_inside(deeper),
    ensures
        flat_body(#[trigger] b.repeat_stmt(label, body, until, span, deeper)),
{
    broadcast use {
        flat_types, add_block_stays_flat, jump_to_stays_flat, add_params_stays_flat,
        switch_to_stays_flat, bind_params_stays_flat, open_stays_flat, push_loop_stays_flat,
        stmts_stays_flat, expr_stays_flat, unwind_stays_flat, terminate_stays_flat,
        pop_loop_stays_flat, drop_scope_stays_flat, restore_stays_flat,
    };

    reveal(BodyView::repeat_stmt);
}

pub(crate) broadcast proof fn try_stmt_stays_flat<'a>(
    b: BodyView<'a>,
    body: Block,
    catches: Seq<CatchClause>,
    finally: Option<Block>,
    span: Span,
    deeper: Deeper<'a>,
)
    requires
        flat_body(b),
        flat_inside(deeper),
    ensures
        flat_body(#[trigger] b.try_stmt(body, catches, finally, span, deeper)),
{
    broadcast use {
        flat_types, add_block_stays_flat, add_block_param_stays_flat, add_params_stays_flat,
        open_stays_flat, defer_stays_flat, push_handler_stays_flat, block_stays_flat,
        pop_handler_stays_flat, switch_to_stays_flat, restore_stays_flat, bind_thrown_stays_flat,
        catch_clauses_stays_flat, raise_stays_flat, join_stays_flat, close_stays_flat,
    };

    reveal(BodyView::try_stmt);
}

pub(crate) broadcast proof fn catch_clauses_stays_flat<'a>(
    b: BodyView<'a>,
    thrown: Value,
    catches: Seq<CatchClause>,
    deeper: Deeper<'a>,
    count: nat,
)
    requires
        flat_body(b),
        flat_inside(deeper),
        count <= catches.len(),
    ensures
        flat_body((#[trigger] b.catch_clauses(thrown, catches, deeper, count)).0),
    decreases count,
{
    broadcast use {
        flat_types, add_block_stays_flat, catch_stays_flat, open_stays_flat, bind_name_stays_flat,
        stmts_stays_flat, close_stays_flat, restore_stays_flat, switch_to_stays_flat,
        terminate_stays_flat,
    };

    reveal(BodyView::catch_clauses);
    if count > 0 {
        catch_clauses_stays_flat(b, thrown, catches, deeper, (count - 1) as nat);
    }
}

pub(crate) broadcast proof fn catch_stays_flat<'a>(
    b: BodyView<'a>,
    thrown: Value,
    clause: CatchClause,
    next: BlockId,
)
    requires
        flat_body(b),
    ensures
        flat_body((#[trigger] b.catch(thrown, clause, next)).0),
{
    broadcast use {
        flat_types, recorded_stays_flat, emit_stays_flat, add_block_stays_flat, branch_stays_flat,
        switch_to_stays_flat,
    };

    reveal(BodyView::catch);
}

pub(crate) broadcast proof fn bind_thrown_stays_flat<'a>(
    b: BodyView<'a>,
    block: BlockId,
    carried: Seq<u32>,
)
    requires
        flat_body(b),
    ensures
        flat_body(#[trigger] b.bind_thrown(block, carried)),
{
    broadcast use {flat_types, set_defs_stays_flat};

    reveal(BodyView::bind_thrown);
}

pub(crate) broadcast proof fn assign_stays_flat<'a>(
    b: BodyView<'a>,
    target: Expr,
    op: Option<AstBinary>,
    value: Expr,
    span: Span,
    deeper: Deeper<'a>,
)
    requires
        flat_body(b),
        flat_inside(deeper),
    ensures
        flat_body(#[trigger] b.assign(target, op, value, span, deeper)),
{
    broadcast use {
        flat_types, gap_stays_flat, read_var_stays_flat, written_into_stays_flat,
        write_var_stays_flat, assign_field_stays_flat, assign_index_stays_flat,
    };

    reveal(BodyView::assign);
}

pub(crate) broadcast proof fn assign_field_stays_flat<'a>(
    b: BodyView<'a>,
    receiver: Expr,
    name: Seq<char>,
    op: Option<AstBinary>,
    value: Expr,
    target: Span,
    span: Span,
    deeper: Deeper<'a>,
)
    requires
        flat_body(b),
        flat_inside(deeper),
    ensures
        flat_body(#[trigger] b.assign_field(receiver, name, op, value, target, span, deeper)),
{
    broadcast use {
        flat_types, expr_stays_flat, settled_stays_flat, write_property_stays_flat, gap_stays_flat,
        emit_stays_flat, written_into_stays_flat, emit_void_stays_flat,
    };

    reveal(BodyView::assign_field);
}

pub(crate) broadcast proof fn assign_index_stays_flat<'a>(
    b: BodyView<'a>,
    receiver: Expr,
    index: Expr,
    op: Option<AstBinary>,
    value: Expr,
    target: Span,
    span: Span,
    deeper: Deeper<'a>,
)
    requires
        flat_body(b),
        flat_inside(deeper),
    ensures
        flat_body(#[trigger] b.assign_index(receiver, index, op, value, target, span, deeper)),
{
    broadcast use {
        flat_types, expr_stays_flat, settled_stays_flat, gap_stays_flat, emit_stays_flat,
        written_into_stays_flat, emit_void_stays_flat,
    };

    reveal(BodyView::assign_index);
}

pub(crate) broadcast proof fn write_property_stays_flat<'a>(
    b: BodyView<'a>,
    object: Value,
    held: TyView,
    name: Seq<char>,
    op: Option<AstBinary>,
    value: Expr,
    target: Span,
    span: Span,
    deeper: Deeper<'a>,
)
    requires
        flat_body(b),
        flat_inside(deeper),
        flat(held),
    ensures
        flat_body(#[trigger] b.write_property(object, held, name, op, value, target, span, deeper)),
{
    broadcast use {
        flat_types, gap_stays_flat, emit_stays_flat, written_into_stays_flat, emit_void_stays_flat,
    };

    reveal(BodyView::write_property);
}

pub(crate) broadcast proof fn written_into_stays_flat<'a>(
    b: BodyView<'a>,
    held: Option<Value>,
    wanted: TyView,
    op: Option<AstBinary>,
    value: Expr,
    target: Span,
    span: Span,
    deeper: Deeper<'a>,
)
    requires
        flat_body(b),
        flat_inside(deeper),
        flat(wanted),
    ensures
        flat_body((#[trigger] b.written_into(held, wanted, op, value, target, span, deeper)).0),
{
    broadcast use {
        flat_types, call_declared_stays_flat, stored_stays_flat, emit_stays_flat,
        missing_stays_flat,
    };

    reveal(BodyView::written_into);
}

/// Lowering what is nested inside something keeps every type flat, however deep.
pub proof fn nested_stays_flat(fuel: nat)
    ensures
        flat_inside(deeper(fuel)),
    decreases fuel,
{
    broadcast use {
        gap_stays_flat, missing_stays_flat, expr_within_stays_flat, block_within_stays_flat,
        stmts_within_stays_flat, test_within_stays_flat, bind_within_stays_flat,
    };

    reveal(flat_inside);
    if fuel > 0 {
        nested_stays_flat((fuel - 1) as nat);
    }
}

/// Lowering a block into a body whose types are flat keeps them flat, in the function
/// lowered into and in every closure built on the way.
pub proof fn a_lowered_block_stays_flat<'a>(
    b: BodyView<'a>,
    bindings: Seq<Bound<'a>>,
    block: Block,
    fuel: nat,
)
    requires
        flat_body(b),
    ensures
        flat_body(b.lower_block(bindings, block, deeper(fuel))),
{
    nested_stays_flat(fuel);
    lower_block_stays_flat(b, bindings, block, deeper(fuel));
}

/// Writing a derived member keeps the same.
pub proof fn a_derived_member_stays_flat<'a>(
    b: BodyView<'a>,
    member: Seq<char>,
    owner: TypeId,
    span: Span,
)
    requires
        flat_body(b),
    ensures
        flat_body(b.derive(member, owner, span).0),
{
    derive_stays_flat(b, member, owner, span);
}

} // verus!
