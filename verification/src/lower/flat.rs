//! That no type of a lowered program has an optional in an optional.

use vstd::prelude::*;

use crate::ast::{Expr, FunctionItem, Item, Member, PropertyItem, Setter, Stmt};
use crate::inst::MethodId;
use crate::program::{
    finalizers_with, FuncId, FunctionView, ImplementationView, InterfaceView, MethodView,
    NominalView,
};
use crate::sema::{
    Decl, DerivedMember, Entry, EnumType, Facts, Graph, InterfaceType, ModuleId, Node, ParamType,
    Signature, StructType, Table, Type, VariantType,
};
use crate::span::Span;
use crate::ty::{TyView, TypeId};

use super::bodies::{bodies_lowered, body_lowered, lowered_view};
use super::body::flat::{a_derived_member_stays_flat, a_lowered_block_stays_flat};
use super::body::flat::{
    a_fresh_body_is_flat, flat, flat_all, flat_body, flat_callee, flat_context, flat_declared,
    flat_function, flat_method, flat_nominal, flat_program, flat_types, flat_variants,
    members_are_flat,
};
use super::body::kinds::index_id_view;
use super::body::{
    BodyView, CalleeView, Constant, ContextView, FieldDefault, ParameterView, PropertyView,
};
use super::declare::{declared_shell_view, Resolved};
use super::declared::{entry_from, owner_of_view, Found, Named};
use super::names::{in_block_view, Seeking};
use super::shells::{adapter_view, passed_types_view, shell_view};
use super::state::{
    generic_over_view, implementor_from, parameters_view, Derived, LoweringView, OwnerView,
    PendingView,
};
use super::types::converted_types_never_nest;
use super::{CompilationMode, GapView};

verus! {

/// Whether what each of some parameters takes is flat.
pub open spec fn flat_taken(taken: Seq<ParameterView>) -> bool {
    forall|i: int| 0 <= i < taken.len() ==> flat((#[trigger] taken[i]).ty)
}

/// Whether what each of some methods takes and gives back is flat.
pub open spec fn flat_methods(methods: Seq<MethodView>) -> bool {
    forall|i: int| 0 <= i < methods.len() ==> flat_method(#[trigger] methods[i])
}

/// Whether every type of a program being lowered is flat.
#[verifier::opaque]
pub open spec fn flat_lowering(b: LoweringView) -> bool {
    &&& flat_program(b.program)
    &&& forall|i: int| 0 <= i < b.functions.len() ==> flat_callee((#[trigger] b.functions[i]).1)
    &&& forall|i: int| 0 <= i < b.properties.len() ==> flat((#[trigger] b.properties[i]).ty)
}

pub(crate) broadcast proof fn a_generic_type_is_flat(id: TypeId, params: Seq<Seq<char>>)
    ensures
        flat(#[trigger] generic_over_view(id, params)),
{
    broadcast use members_are_flat;

    assert(flat_all(parameters_view(params)));
}

pub(crate) broadcast proof fn an_owner_is_flat<'a>(
    b: LoweringView<'a>,
    found: Found<'a>,
    takes_self: bool,
)
    ensures
        (#[trigger] b.receiver_of(found, takes_self)) matches Some(owner) ==> flat(owner.ty),
{
    broadcast use a_generic_type_is_flat;

    reveal(LoweringView::receiver_of);
    reveal(LoweringView::self_type);
    reveal(flat);
    if let Some(owner) = owner_of_view(found) {
        if b.id_of(found.module, owner) is None {
            if let Some(entry) = entry_from(b.table.entries@, found.module, owner, 0) {
                if let Decl::Extension { target, .. } = entry.decl {
                    converted_types_never_nest(target, b.ids);
                }
            }
        }
    }
}

pub(crate) broadcast proof fn a_shell_is_flat(
    name: Seq<char>,
    type_params: Seq<Seq<char>>,
    params: Seq<TyView>,
    result: TyView,
    span: Span,
    bodied: bool,
)
    requires
        flat_all(params),
        flat(result),
    ensures
        flat_function(#[trigger] shell_view(name, type_params, params, result, span, bodied)),
{
    reveal(flat_function);
}

pub(crate) broadcast proof fn a_declared_shell_is_flat<'a>(
    name: Seq<char>,
    owner: Option<OwnerView>,
    signature: Signature,
    function: FunctionItem,
    taken: Seq<ParameterView<'a>>,
    result: TyView,
    external: Option<Seq<char>>,
)
    requires
        owner matches Some(held) ==> flat(held.ty),
        flat_taken(taken),
        flat(result),
    ensures
        flat_function(
            #[trigger] declared_shell_view(
                name,
                owner,
                signature,
                function,
                taken,
                result,
                external,
            ),
        ),
{
    broadcast use flat_types;

    reveal(flat_function);
    let types = passed_types_view(owner, taken);
    assert forall|i: int| 0 <= i < types.len() implies flat(#[trigger] types[i]) by {
        let at = if owner is Some {
            i - 1
        } else {
            i
        };
        if at >= 0 {
            assert(flat(taken[at].ty));
        }
    }
}

pub(crate) broadcast proof fn an_adapter_is_flat(
    source: FunctionView,
    name: Seq<char>,
    callee: FuncId,
)
    requires
        flat_function(source),
    ensures
        flat_function(#[trigger] adapter_view(source, name, callee)),
{
    broadcast use flat_types;

    reveal(flat_function);
    assert(flat_all(parameters_view(source.type_params)));
}

pub broadcast group lowered_types {
    flat_types,
    a_generic_type_is_flat,
    an_owner_is_flat,
    a_shell_is_flat,
    a_declared_shell_is_flat,
    an_adapter_is_flat,
}

proof fn finalizers_stay_flat(held: Seq<(TyView, FuncId)>, ty: TyView, func: FuncId)
    requires
        forall|i: int| 0 <= i < held.len() ==> flat((#[trigger] held[i]).0),
        flat(ty),
    ensures
        forall|i: int|
            0 <= i < finalizers_with(held, ty, func).len() ==> flat(
                (#[trigger] finalizers_with(held, ty, func)[i]).0,
            ),
    decreases held.len(),
{
    if held.len() > 0 && held[0].0 != ty {
        finalizers_stay_flat(held.skip(1), ty, func);
        assert forall|i: int| 0 <= i < finalizers_with(held, ty, func).len() implies flat(
            (#[trigger] finalizers_with(held, ty, func)[i]).0,
        ) by {
            if i > 0 {
                assert(flat(finalizers_with(held.skip(1), ty, func)[i - 1].0));
            }
        }
    }
}

pub(crate) broadcast proof fn gap_keeps_flat<'a>(
    b: LoweringView<'a>,
    span: Span,
    what: Seq<char>,
)
    requires
        flat_lowering(b),
    ensures
        flat_lowering(#[trigger] b.gap(span, what)),
{
    broadcast use lowered_types;

    reveal(flat_lowering);
    reveal(flat_program);
    reveal(LoweringView::gap);
}

pub(crate) broadcast proof fn convert_keeps_flat<'a>(
    b: LoweringView<'a>,
    ty: Type,
    span: Span,
)
    requires
        flat_lowering(b),
    ensures
        flat_lowering((#[trigger] b.convert(ty, span)).0),
        flat(b.convert(ty, span).1),
{
    broadcast use {lowered_types, gap_keeps_flat};

    reveal(LoweringView::convert);
    reveal(LoweringView::gap);
    reveal(flat);
    converted_types_never_nest(ty, b.ids);
}

pub(crate) broadcast proof fn add_type_keeps_flat<'a>(
    b: LoweringView<'a>,
    nominal: NominalView,
)
    requires
        flat_lowering(b),
        flat_nominal(nominal),
    ensures
        flat_lowering(#[trigger] b.add_type(nominal)),
{
    broadcast use lowered_types;

    reveal(flat_lowering);
    reveal(flat_program);
    reveal(LoweringView::gap);
    reveal(LoweringView::add_type);
}

pub(crate) broadcast proof fn add_function_keeps_flat<'a>(
    b: LoweringView<'a>,
    function: FunctionView,
)
    requires
        flat_lowering(b),
        flat_function(function),
    ensures
        flat_lowering((#[trigger] b.add_function(function)).0),
{
    broadcast use lowered_types;

    reveal(flat_lowering);
    reveal(flat_program);
    reveal(LoweringView::gap);
    reveal(LoweringView::add_function);
}

pub(crate) broadcast proof fn put_function_keeps_flat<'a>(
    b: LoweringView<'a>,
    id: FuncId,
    function: FunctionView,
)
    requires
        flat_lowering(b),
        flat_function(function),
    ensures
        flat_lowering(#[trigger] b.put_function(id, function)),
{
    broadcast use lowered_types;

    reveal(flat_lowering);
    reveal(flat_program);
    reveal(LoweringView::put_function);
}

pub(crate) broadcast proof fn name_type_keeps_flat<'a>(
    b: LoweringView<'a>,
    module: ModuleId,
    name: &'a String,
)
    requires
        flat_lowering(b),
    ensures
        flat_lowering(#[trigger] b.name_type(module, name)),
{
    broadcast use lowered_types;

    reveal(flat_lowering);
    reveal(flat_program);
    reveal(LoweringView::name_type);
}

pub(crate) broadcast proof fn put_constant_keeps_flat<'a>(
    b: LoweringView<'a>,
    held: Constant<'a>,
)
    requires
        flat_lowering(b),
    ensures
        flat_lowering(#[trigger] b.put_constant(held)),
{
    broadcast use lowered_types;

    reveal(flat_lowering);
    reveal(flat_program);
    reveal(LoweringView::put_constant);
}

pub(crate) broadcast proof fn put_callee_keeps_flat<'a>(
    b: LoweringView<'a>,
    span: Span,
    callee: CalleeView<'a>,
)
    requires
        flat_lowering(b),
        flat_callee(callee),
    ensures
        flat_lowering(#[trigger] b.put_callee(span, callee)),
{
    broadcast use lowered_types;

    reveal(flat_lowering);
    reveal(flat_program);
    reveal(LoweringView::put_callee);
}

pub(crate) broadcast proof fn put_virtual_keeps_flat<'a>(
    b: LoweringView<'a>,
    span: Span,
    method: MethodId,
)
    requires
        flat_lowering(b),
    ensures
        flat_lowering(#[trigger] b.put_virtual(span, method)),
{
    broadcast use lowered_types;

    reveal(flat_lowering);
    reveal(flat_program);
    reveal(LoweringView::put_virtual);
}

pub(crate) broadcast proof fn put_default_keeps_flat<'a>(
    b: LoweringView<'a>,
    held: FieldDefault<'a>,
)
    requires
        flat_lowering(b),
    ensures
        flat_lowering(#[trigger] b.put_default(held)),
{
    broadcast use lowered_types;

    reveal(flat_lowering);
    reveal(flat_program);
    reveal(LoweringView::put_default);
}

pub(crate) broadcast proof fn put_property_keeps_flat<'a>(
    b: LoweringView<'a>,
    held: PropertyView<'a>,
)
    requires
        flat_lowering(b),
        flat(held.ty),
    ensures
        flat_lowering(#[trigger] b.put_property(held)),
{
    broadcast use lowered_types;

    reveal(flat_lowering);
    reveal(flat_program);
    reveal(LoweringView::put_property);
}

pub(crate) broadcast proof fn push_body_keeps_flat<'a>(
    b: LoweringView<'a>,
    held: PendingView<'a>,
)
    requires
        flat_lowering(b),
    ensures
        flat_lowering(#[trigger] b.push_body(held)),
{
    broadcast use lowered_types;

    reveal(flat_lowering);
    reveal(flat_program);
    reveal(LoweringView::push_body);
}

pub(crate) broadcast proof fn push_derived_keeps_flat<'a>(
    b: LoweringView<'a>,
    held: Derived<'a>,
)
    requires
        flat_lowering(b),
    ensures
        flat_lowering(#[trigger] b.push_derived(held)),
{
    broadcast use lowered_types;

    reveal(flat_lowering);
    reveal(flat_program);
    reveal(LoweringView::push_derived);
}

pub(crate) broadcast proof fn set_entry_keeps_flat<'a>(
    b: LoweringView<'a>,
    id: FuncId,
)
    requires
        flat_lowering(b),
    ensures
        flat_lowering(#[trigger] b.set_entry(id)),
{
    broadcast use lowered_types;

    reveal(flat_lowering);
    reveal(flat_program);
    reveal(LoweringView::set_entry);
}

pub(crate) broadcast proof fn push_initializer_keeps_flat<'a>(
    b: LoweringView<'a>,
    id: FuncId,
)
    requires
        flat_lowering(b),
    ensures
        flat_lowering(#[trigger] b.push_initializer(id)),
{
    broadcast use lowered_types;

    reveal(flat_lowering);
    reveal(flat_program);
    reveal(LoweringView::push_initializer);
}

pub(crate) broadcast proof fn set_finalizer_keeps_flat<'a>(
    b: LoweringView<'a>,
    ty: TyView,
    id: FuncId,
)
    requires
        flat_lowering(b),
        flat(ty),
    ensures
        flat_lowering(#[trigger] b.set_finalizer(ty, id)),
{
    broadcast use lowered_types;

    reveal(flat_lowering);
    reveal(flat_program);
    reveal(LoweringView::set_finalizer);
    finalizers_stay_flat(b.program.finalizers, ty, id);
}

pub(crate) broadcast proof fn virtual_adapter_keeps_flat<'a>(
    b: LoweringView<'a>,
    callee: FuncId,
)
    requires
        flat_lowering(b),
    ensures
        flat_lowering((#[trigger] b.virtual_adapter(callee)).0),
{
    broadcast use {lowered_types, add_function_keeps_flat, gap_keeps_flat};

    reveal(LoweringView::virtual_adapter);
    if callee.0 < b.program.functions.len() {
        assert(flat_function(b.program.functions[callee.0 as int])) by {
            reveal(flat_lowering);
            reveal(flat_program);
        }
    }
}

pub(crate) broadcast proof fn collect_constants_keeps_flat<'a>(
    b: LoweringView<'a>,
    modules: Seq<Node>,
    count: nat,
)
    requires
        flat_lowering(b),
    ensures
        flat_lowering(#[trigger] b.collect_constants(modules, count)),
    decreases count,
{
    broadcast use {lowered_types, constants_in_keeps_flat};

    reveal(LoweringView::collect_constants);
    if count > 0 {
        collect_constants_keeps_flat(b, modules, (count - 1) as nat);
    }
}

pub(crate) broadcast proof fn constants_in_keeps_flat<'a>(
    b: LoweringView<'a>,
    module: ModuleId,
    stmts: Seq<Stmt>,
    count: nat,
)
    requires
        flat_lowering(b),
    ensures
        flat_lowering(#[trigger] b.constants_in(module, stmts, count)),
    decreases count,
{
    broadcast use {lowered_types, put_constant_keeps_flat};

    reveal(LoweringView::constants_in);
    if count > 0 {
        constants_in_keeps_flat(b, module, stmts, (count - 1) as nat);
    }
}

pub(crate) broadcast proof fn name_types_keeps_flat<'a>(
    b: LoweringView<'a>,
    entries: Seq<Entry>,
    count: nat,
)
    requires
        flat_lowering(b),
    ensures
        flat_lowering(#[trigger] b.name_types(entries, count)),
    decreases count,
{
    broadcast use {lowered_types, name_type_keeps_flat};

    reveal(LoweringView::name_types);
    if count > 0 {
        name_types_keeps_flat(b, entries, (count - 1) as nat);
    }
}

pub(crate) broadcast proof fn build_types_keeps_flat<'a>(
    b: LoweringView<'a>,
    entries: Seq<Entry>,
    count: nat,
)
    requires
        flat_lowering(b),
    ensures
        flat_lowering(#[trigger] b.build_types(entries, count)),
    decreases count,
{
    broadcast use {
        lowered_types, structure_keeps_flat, enumeration_keeps_flat, interface_keeps_flat,
    };

    reveal(LoweringView::build_types);
    if count > 0 {
        build_types_keeps_flat(b, entries, (count - 1) as nat);
    }
}

pub(crate) broadcast proof fn structure_keeps_flat<'a>(
    b: LoweringView<'a>,
    entry: Entry,
    held: StructType,
)
    requires
        flat_lowering(b),
    ensures
        flat_lowering(#[trigger] b.structure(entry, held)),
{
    broadcast use {lowered_types, fields_keeps_flat, keep_defaults_keeps_flat, add_type_keeps_flat};

    reveal(LoweringView::structure);
}

pub(crate) broadcast proof fn keep_defaults_keeps_flat<'a>(
    b: LoweringView<'a>,
    id: TypeId,
    defaults: Seq<Option<&'a Expr>>,
    count: nat,
)
    requires
        flat_lowering(b),
    ensures
        flat_lowering(#[trigger] b.keep_defaults(id, defaults, count)),
    decreases count,
{
    broadcast use {lowered_types, put_default_keeps_flat};

    reveal(LoweringView::keep_defaults);
    if count > 0 {
        keep_defaults_keeps_flat(b, id, defaults, (count - 1) as nat);
    }
}

pub(crate) broadcast proof fn fields_keeps_flat<'a>(
    b: LoweringView<'a>,
    declared: Seq<(String, Type)>,
    span: Span,
    count: nat,
)
    requires
        flat_lowering(b),
    ensures
        flat_lowering((#[trigger] b.fields(declared, span, count)).0),
        flat_declared(b.fields(declared, span, count).1),
    decreases count,
{
    broadcast use {lowered_types, convert_keeps_flat};

    reveal(LoweringView::fields);
    if count > 0 {
        fields_keeps_flat(b, declared, span, (count - 1) as nat);
    }
}

pub(crate) broadcast proof fn numbered_fields_keeps_flat<'a>(
    b: LoweringView<'a>,
    types: Seq<Type>,
    span: Span,
    count: nat,
)
    requires
        flat_lowering(b),
    ensures
        flat_lowering((#[trigger] b.numbered_fields(types, span, count)).0),
        flat_declared(b.numbered_fields(types, span, count).1),
    decreases count,
{
    broadcast use {lowered_types, convert_keeps_flat};

    reveal(LoweringView::numbered_fields);
    if count > 0 {
        numbered_fields_keeps_flat(b, types, span, (count - 1) as nat);
    }
}

pub(crate) broadcast proof fn enumeration_keeps_flat<'a>(
    b: LoweringView<'a>,
    entry: Entry,
    held: EnumType,
)
    requires
        flat_lowering(b),
    ensures
        flat_lowering(#[trigger] b.enumeration(entry, held)),
{
    broadcast use {lowered_types, variants_keeps_flat, add_type_keeps_flat};

    reveal(LoweringView::enumeration);
}

pub(crate) broadcast proof fn variants_keeps_flat<'a>(
    b: LoweringView<'a>,
    order: Seq<String>,
    declared: Seq<(String, VariantType)>,
    span: Span,
    count: nat,
)
    requires
        flat_lowering(b),
    ensures
        flat_lowering((#[trigger] b.variants(order, declared, span, count)).0),
        flat_variants(b.variants(order, declared, span, count).1),
    decreases count,
{
    broadcast use {lowered_types, numbered_fields_keeps_flat, fields_keeps_flat};

    reveal(LoweringView::variants);
    if count > 0 {
        variants_keeps_flat(b, order, declared, span, (count - 1) as nat);
    }
}

pub(crate) broadcast proof fn interface_keeps_flat<'a>(
    b: LoweringView<'a>,
    entry: Entry,
    held: InterfaceType,
)
    requires
        flat_lowering(b),
    ensures
        flat_lowering(#[trigger] b.interface(entry, held)),
{
    broadcast use {lowered_types, methods_keeps_flat, add_type_keeps_flat};

    reveal(LoweringView::interface);
}

pub(crate) broadcast proof fn methods_keeps_flat<'a>(
    b: LoweringView<'a>,
    id: TypeId,
    all: Seq<Named<'a>>,
    span: Span,
    count: nat,
)
    requires
        flat_lowering(b),
    ensures
        flat_lowering((#[trigger] b.methods(id, all, span, count)).0),
        flat_methods(b.methods(id, all, span, count).1),
    decreases count,
{
    broadcast use {
        lowered_types, param_types_keeps_flat, convert_keeps_flat, put_virtual_keeps_flat,
    };

    reveal(LoweringView::methods);
    if count > 0 {
        methods_keeps_flat(b, id, all, span, (count - 1) as nat);
    }
}

pub(crate) broadcast proof fn param_types_keeps_flat<'a>(
    b: LoweringView<'a>,
    params: Seq<ParamType>,
    span: Span,
    count: nat,
)
    requires
        flat_lowering(b),
    ensures
        flat_lowering((#[trigger] b.param_types(params, span, count)).0),
        flat_all(b.param_types(params, span, count).1),
    decreases count,
{
    broadcast use {lowered_types, convert_keeps_flat};

    reveal(LoweringView::param_types);
    if count > 0 {
        param_types_keeps_flat(b, params, span, (count - 1) as nat);
    }
}

pub(crate) broadcast proof fn declare_functions_keeps_flat<'a>(
    b: LoweringView<'a>,
    found: Seq<Found<'a>>,
    count: nat,
)
    requires
        flat_lowering(b),
    ensures
        flat_lowering(#[trigger] b.declare_functions(found, count)),
    decreases count,
{
    broadcast use {lowered_types, declare_keeps_flat};

    reveal(LoweringView::declare_functions);
    if count > 0 {
        declare_functions_keeps_flat(b, found, (count - 1) as nat);
    }
}

pub(crate) broadcast proof fn declare_keeps_flat<'a>(
    b: LoweringView<'a>,
    found: Found<'a>,
)
    requires
        flat_lowering(b),
    ensures
        flat_lowering(#[trigger] b.declare(found)),
{
    broadcast use {
        lowered_types, gap_keeps_flat, taken_keeps_flat, convert_keeps_flat,
        add_function_keeps_flat, put_callee_keeps_flat, set_entry_keeps_flat,
        push_body_keeps_flat,
    };

    reveal(LoweringView::declare);
}

pub(crate) broadcast proof fn taken_keeps_flat<'a>(
    b: LoweringView<'a>,
    function: FunctionItem,
    takes_self: bool,
    params: Seq<ParamType>,
    span: Span,
    count: nat,
)
    requires
        flat_lowering(b),
    ensures
        flat_lowering((#[trigger] b.taken(function, takes_self, params, span, count)).0),
        flat_taken(b.taken(function, takes_self, params, span, count).1),
    decreases count,
{
    broadcast use {lowered_types, convert_keeps_flat};

    reveal(LoweringView::taken);
    if count > 0 {
        taken_keeps_flat(b, function, takes_self, params, span, (count - 1) as nat);
    }
}

pub(crate) broadcast proof fn declare_initializers_keeps_flat<'a>(
    b: LoweringView<'a>,
    order: Seq<ModuleId>,
    count: nat,
)
    requires
        flat_lowering(b),
    ensures
        flat_lowering(#[trigger] b.declare_initializers(order, count)),
    decreases count,
{
    broadcast use {lowered_types, declare_initializer_keeps_flat};

    reveal(LoweringView::declare_initializers);
    if count > 0 {
        declare_initializers_keeps_flat(b, order, (count - 1) as nat);
    }
}

pub(crate) broadcast proof fn declare_initializer_keeps_flat<'a>(
    b: LoweringView<'a>,
    module: ModuleId,
    node: Node,
)
    requires
        flat_lowering(b),
    ensures
        flat_lowering(#[trigger] b.declare_initializer(module, node)),
{
    broadcast use {
        lowered_types, add_function_keeps_flat, push_initializer_keeps_flat,
        push_body_keeps_flat,
    };

    reveal(LoweringView::declare_initializer);
}

pub(crate) broadcast proof fn declare_finalizers_keeps_flat<'a>(
    b: LoweringView<'a>,
    modules: Seq<Node>,
    count: nat,
)
    requires
        flat_lowering(b),
    ensures
        flat_lowering(#[trigger] b.declare_finalizers(modules, count)),
    decreases count,
{
    broadcast use {lowered_types, finalizers_in_keeps_flat};

    reveal(LoweringView::declare_finalizers);
    if count > 0 {
        declare_finalizers_keeps_flat(b, modules, (count - 1) as nat);
    }
}

pub(crate) broadcast proof fn finalizers_in_keeps_flat<'a>(
    b: LoweringView<'a>,
    module: ModuleId,
    items: Seq<Item>,
    count: nat,
)
    requires
        flat_lowering(b),
    ensures
        flat_lowering(#[trigger] b.finalizers_in(module, items, count)),
    decreases count,
{
    broadcast use {lowered_types, finalizers_of_keeps_flat};

    reveal(LoweringView::finalizers_in);
    if count > 0 {
        finalizers_in_keeps_flat(b, module, items, (count - 1) as nat);
    }
}

pub(crate) broadcast proof fn finalizers_of_keeps_flat<'a>(
    b: LoweringView<'a>,
    module: ModuleId,
    owner: &'a String,
    members: Seq<Member>,
    count: nat,
)
    requires
        flat_lowering(b),
    ensures
        flat_lowering(#[trigger] b.finalizers_of(module, owner, members, count)),
    decreases count,
{
    broadcast use {lowered_types, declare_finalizer_keeps_flat};

    reveal(LoweringView::finalizers_of);
    if count > 0 {
        finalizers_of_keeps_flat(b, module, owner, members, (count - 1) as nat);
    }
}

pub(crate) broadcast proof fn declare_finalizer_keeps_flat<'a>(
    b: LoweringView<'a>,
    module: ModuleId,
    owner: &'a String,
    function: FunctionItem,
)
    requires
        flat_lowering(b),
    ensures
        flat_lowering(#[trigger] b.declare_finalizer(module, owner, function)),
{
    broadcast use {
        lowered_types, add_function_keeps_flat, set_finalizer_keeps_flat, push_body_keeps_flat,
    };

    reveal(LoweringView::declare_finalizer);
}

pub(crate) broadcast proof fn declare_properties_keeps_flat<'a>(
    b: LoweringView<'a>,
    modules: Seq<Node>,
    count: nat,
)
    requires
        flat_lowering(b),
    ensures
        flat_lowering(#[trigger] b.declare_properties(modules, count)),
    decreases count,
{
    broadcast use {lowered_types, properties_in_keeps_flat};

    reveal(LoweringView::declare_properties);
    if count > 0 {
        declare_properties_keeps_flat(b, modules, (count - 1) as nat);
    }
}

pub(crate) broadcast proof fn properties_in_keeps_flat<'a>(
    b: LoweringView<'a>,
    module: ModuleId,
    items: Seq<Item>,
    count: nat,
)
    requires
        flat_lowering(b),
    ensures
        flat_lowering(#[trigger] b.properties_in(module, items, count)),
    decreases count,
{
    broadcast use {lowered_types, properties_of_keeps_flat};

    reveal(LoweringView::properties_in);
    if count > 0 {
        properties_in_keeps_flat(b, module, items, (count - 1) as nat);
    }
}

pub(crate) broadcast proof fn properties_of_keeps_flat<'a>(
    b: LoweringView<'a>,
    module: ModuleId,
    owner: &'a String,
    members: Seq<Member>,
    count: nat,
)
    requires
        flat_lowering(b),
    ensures
        flat_lowering(#[trigger] b.properties_of(module, owner, members, count)),
    decreases count,
{
    broadcast use {lowered_types, declare_property_keeps_flat};

    reveal(LoweringView::properties_of);
    if count > 0 {
        properties_of_keeps_flat(b, module, owner, members, (count - 1) as nat);
    }
}

pub(crate) broadcast proof fn declare_property_keeps_flat<'a>(
    b: LoweringView<'a>,
    module: ModuleId,
    owner: &'a String,
    property: PropertyItem,
)
    requires
        flat_lowering(b),
    ensures
        flat_lowering(#[trigger] b.declare_property(module, owner, property)),
{
    broadcast use {
        lowered_types, convert_keeps_flat, add_function_keeps_flat, push_body_keeps_flat,
        declare_setter_keeps_flat, put_property_keeps_flat, gap_keeps_flat,
    };

    reveal(LoweringView::declare_property);
}

pub(crate) broadcast proof fn declare_setter_keeps_flat<'a>(
    b: LoweringView<'a>,
    module: ModuleId,
    path: Seq<char>,
    setter: Setter,
    params: Seq<Seq<char>>,
    receiver: TyView,
    ty: TyView,
)
    requires
        flat_lowering(b),
        flat(receiver),
        flat(ty),
    ensures
        flat_lowering((#[trigger] b.declare_setter(module, path, setter, params, receiver, ty)).0),
{
    broadcast use {lowered_types, add_function_keeps_flat, push_body_keeps_flat};

    reveal(LoweringView::declare_setter);
}

pub(crate) broadcast proof fn declare_derived_keeps_flat<'a>(
    b: LoweringView<'a>,
    members: Seq<DerivedMember>,
    count: nat,
)
    requires
        flat_lowering(b),
    ensures
        flat_lowering(#[trigger] b.declare_derived(members, count)),
    decreases count,
{
    broadcast use {lowered_types, declare_one_keeps_flat};

    reveal(LoweringView::declare_derived);
    if count > 0 {
        declare_derived_keeps_flat(b, members, (count - 1) as nat);
    }
}

pub(crate) broadcast proof fn declare_one_keeps_flat<'a>(
    b: LoweringView<'a>,
    module: ModuleId,
    owner: &'a String,
    member: DerivedMember,
)
    requires
        flat_lowering(b),
    ensures
        flat_lowering(#[trigger] b.declare_one(module, owner, member)),
{
    broadcast use {
        lowered_types, convert_keeps_flat, plainly_taken_keeps_flat, add_function_keeps_flat,
        put_callee_keeps_flat, push_derived_keeps_flat,
    };

    reveal(LoweringView::declare_one);
}

pub(crate) broadcast proof fn plainly_taken_keeps_flat<'a>(
    b: LoweringView<'a>,
    params: Seq<ParamType>,
    span: Span,
    count: nat,
)
    requires
        flat_lowering(b),
    ensures
        flat_lowering((#[trigger] b.plainly_taken(params, span, count)).0),
        flat_taken(b.plainly_taken(params, span, count).1),
    decreases count,
{
    broadcast use {lowered_types, convert_keeps_flat};

    reveal(LoweringView::plainly_taken);
    if count > 0 {
        plainly_taken_keeps_flat(b, params, span, (count - 1) as nat);
    }
}

pub(crate) broadcast proof fn build_vtables_keeps_flat<'a>(
    b: LoweringView<'a>,
    entries: Seq<Entry>,
    count: nat,
)
    requires
        flat_lowering(b),
    ensures
        flat_lowering(#[trigger] b.build_vtables(entries, count)),
    decreases count,
{
    broadcast use {lowered_types, implement_all_keeps_flat};

    reveal(LoweringView::build_vtables);
    if count > 0 {
        build_vtables_keeps_flat(b, entries, (count - 1) as nat);
    }
}

pub(crate) broadcast proof fn implement_all_keeps_flat<'a>(
    b: LoweringView<'a>,
    entry: Entry,
    held: StructType,
    claims: Seq<Type>,
    count: nat,
)
    requires
        flat_lowering(b),
    ensures
        flat_lowering(#[trigger] b.implement_all(entry, held, claims, count)),
    decreases count,
{
    broadcast use {lowered_types, implement_keeps_flat};

    reveal(LoweringView::implement_all);
    if count > 0 {
        implement_all_keeps_flat(b, entry, held, claims, (count - 1) as nat);
    }
}

pub(crate) broadcast proof fn implement_keeps_flat<'a>(
    b: LoweringView<'a>,
    entry: Entry,
    held: StructType,
    id: TypeId,
    claim: Type,
)
    requires
        flat_lowering(b),
    ensures
        flat_lowering(#[trigger] b.implement(entry, held, id, claim)),
{
    broadcast use {
        lowered_types, note_throwing_keeps_flat, gap_keeps_flat, push_implementor_keeps_flat,
    };

    reveal(LoweringView::implement);
}

pub(crate) broadcast proof fn note_throwing_keeps_flat<'a>(
    b: LoweringView<'a>,
    interface: TypeId,
    found: Seq<Resolved>,
    count: nat,
)
    requires
        flat_lowering(b),
    ensures
        flat_lowering(#[trigger] b.note_throwing(interface, found, count)),
    decreases count,
{
    broadcast use {lowered_types, mark_throwing_keeps_flat};

    reveal(LoweringView::note_throwing);
    if count > 0 {
        note_throwing_keeps_flat(b, interface, found, (count - 1) as nat);
    }
}

pub(crate) broadcast proof fn adapt_throwing_virtuals_keeps_flat<'a>(
    b: LoweringView<'a>,
    types: Seq<NominalView>,
    count: nat,
)
    requires
        flat_lowering(b),
    ensures
        flat_lowering(#[trigger] b.adapt_throwing_virtuals(types, count)),
    decreases count,
{
    broadcast use {lowered_types, adapt_implementors_keeps_flat};

    reveal(LoweringView::adapt_throwing_virtuals);
    if count > 0 {
        adapt_throwing_virtuals_keeps_flat(b, types, (count - 1) as nat);
    }
}

pub(crate) broadcast proof fn adapt_implementors_keeps_flat<'a>(
    b: LoweringView<'a>,
    interface: TypeId,
    methods: Seq<MethodView>,
    implementors: Seq<ImplementationView>,
    count: nat,
)
    requires
        flat_lowering(b),
    ensures
        flat_lowering(#[trigger] b.adapt_implementors(interface, methods, implementors, count)),
    decreases count,
{
    broadcast use {lowered_types, adapt_slots_keeps_flat};

    reveal(LoweringView::adapt_implementors);
    if count > 0 {
        adapt_implementors_keeps_flat(b, interface, methods, implementors, (count - 1) as nat);
    }
}

pub(crate) broadcast proof fn adapt_slots_keeps_flat<'a>(
    b: LoweringView<'a>,
    interface: TypeId,
    methods: Seq<MethodView>,
    ty: TyView,
    callees: Seq<FuncId>,
    count: nat,
)
    requires
        flat_lowering(b),
    ensures
        flat_lowering(#[trigger] b.adapt_slots(interface, methods, ty, callees, count)),
    decreases count,
{
    broadcast use {lowered_types, virtual_adapter_keeps_flat, set_slot_keeps_flat};

    reveal(LoweringView::adapt_slots);
    if count > 0 {
        adapt_slots_keeps_flat(b, interface, methods, ty, callees, (count - 1) as nat);
    }
}

pub(crate) broadcast proof fn write_derived_keeps_flat<'a>(
    b: LoweringView<'a>,
    derived: Seq<Derived<'a>>,
    count: nat,
)
    requires
        flat_lowering(b),
    ensures
        flat_lowering(#[trigger] b.write_derived(derived, count)),
    decreases count,
{
    broadcast use {lowered_types, convert_keeps_flat, derive_body_keeps_flat};

    reveal(LoweringView::write_derived);
    if count > 0 {
        write_derived_keeps_flat(b, derived, (count - 1) as nat);
    }
}

pub(crate) broadcast proof fn find_throwing_keeps_flat<'a>(
    b: LoweringView<'a>,
    found: Seq<Found<'a>>,
)
    requires
        flat_lowering(b),
    ensures
        flat_lowering(#[trigger] b.find_throwing(found)),
{
    broadcast use lowered_types;

    reveal(flat_lowering);
    reveal(flat_program);
    reveal(LoweringView::find_throwing);
}

pub(crate) broadcast proof fn more_gaps_keeps_flat<'a>(
    b: LoweringView<'a>,
    gaps: Seq<GapView>,
)
    requires
        flat_lowering(b),
    ensures
        flat_lowering(#[trigger] b.more_gaps(gaps)),
{
    broadcast use lowered_types;

    reveal(flat_lowering);
    reveal(flat_program);
    reveal(LoweringView::more_gaps);
}

pub(crate) broadcast proof fn declare_all_keeps_flat<'a>(
    b: LoweringView<'a>,
)
    requires
        flat_lowering(b),
    ensures
        flat_lowering(#[trigger] b.declare_all()),
{
    broadcast use {
        lowered_types, collect_constants_keeps_flat, name_types_keeps_flat,
        build_types_keeps_flat, find_throwing_keeps_flat, declare_functions_keeps_flat,
        declare_initializers_keeps_flat, declare_finalizers_keeps_flat,
        declare_properties_keeps_flat, declare_derived_keeps_flat, find_displays_keeps_flat,
    };

}

pub(crate) broadcast proof fn fill_all_keeps_flat<'a>(
    b: LoweringView<'a>,
)
    requires
        flat_lowering(b),
    ensures
        flat_lowering(#[trigger] b.fill_all()),
{
    broadcast use {
        lowered_types, build_vtables_keeps_flat, adapt_throwing_virtuals_keeps_flat,
        lower_bodies_keeps_flat, write_derived_keeps_flat,
    };

}

pub(crate) broadcast proof fn put_interface_keeps_flat<'a>(
    b: LoweringView<'a>,
    id: TypeId,
    held: InterfaceView,
)
    requires
        flat_lowering(b),
        flat_methods(held.methods),
        forall|i: int|
            0 <= i < held.implementors.len() ==> flat((#[trigger] held.implementors[i]).ty),
    ensures
        flat_lowering(#[trigger] b.put_interface(id, held)),
{
    reveal(flat_lowering);
    reveal(flat_program);
    reveal(LoweringView::put_interface);
}

pub(crate) broadcast proof fn an_interface_is_flat<'a>(b: LoweringView<'a>, id: TypeId)
    requires
        flat_lowering(b),
    ensures
        (#[trigger] b.interface_of(id)) matches Some(held) ==> flat_methods(held.methods) && (
        forall|i: int|
            0 <= i < held.implementors.len() ==> flat((#[trigger] held.implementors[i]).ty)),
{
    reveal(flat_lowering);
    reveal(flat_program);
    reveal(LoweringView::interface_of);
    if id.0 < b.program.types.len() {
        assert(flat_nominal(b.program.types[id.0 as int]));
    }
}

proof fn an_implementor_is_listed(held: Seq<ImplementationView>, ty: TyView, from: nat)
    ensures
        implementor_from(held, ty, from) matches Some(at) ==> at < held.len(),
    decreases held.len() - from,
{
    if from < held.len() {
        an_implementor_is_listed(held, ty, from + 1);
    }
}

pub(crate) broadcast proof fn mark_throwing_keeps_flat<'a>(
    b: LoweringView<'a>,
    id: TypeId,
    slot: nat,
)
    requires
        flat_lowering(b),
    ensures
        flat_lowering(#[trigger] b.mark_throwing(id, slot)),
{
    broadcast use {put_interface_keeps_flat, an_interface_is_flat};

    reveal(LoweringView::mark_throwing);
}

pub(crate) broadcast proof fn push_implementor_keeps_flat<'a>(
    b: LoweringView<'a>,
    id: TypeId,
    implementation: ImplementationView,
)
    requires
        flat_lowering(b),
        flat(implementation.ty),
    ensures
        flat_lowering(#[trigger] b.push_implementor(id, implementation)),
{
    broadcast use {put_interface_keeps_flat, an_interface_is_flat};

    reveal(LoweringView::push_implementor);
}

pub(crate) broadcast proof fn set_slot_keeps_flat<'a>(
    b: LoweringView<'a>,
    id: TypeId,
    ty: TyView,
    slot: nat,
    callee: FuncId,
)
    requires
        flat_lowering(b),
    ensures
        flat_lowering(#[trigger] b.set_slot(id, ty, slot, callee)),
{
    broadcast use {put_interface_keeps_flat, an_interface_is_flat};

    reveal(LoweringView::set_slot);
    if let Some(held) = b.interface_of(id) {
        an_implementor_is_listed(held.implementors, ty, 0);
    }
}

pub(crate) broadcast proof fn find_displays_keeps_flat<'a>(b: LoweringView<'a>)
    requires
        flat_lowering(b),
    ensures
        flat_lowering(#[trigger] b.find_displays()),
{
    reveal(flat_lowering);
    reveal(LoweringView::find_displays);
}

/// Whether the types of each of several functions are flat.
pub open spec fn flat_functions(held: Seq<(FuncId, FunctionView)>) -> bool {
    forall|i: int| 0 <= i < held.len() ==> flat_function((#[trigger] held[i]).1)
}

proof fn put_all_keeps_flat<'a>(
    b: LoweringView<'a>,
    built: Seq<(FuncId, FunctionView)>,
    count: nat,
)
    requires
        flat_lowering(b),
        flat_functions(built),
        count <= built.len(),
    ensures
        flat_lowering(b.put_all(built, count)),
    decreases count,
{
    broadcast use put_function_keeps_flat;

    reveal(LoweringView::put_all);
    if count > 0 {
        put_all_keeps_flat(b, built, (count - 1) as nat);
        assert(flat_function(built[count - 1].1));
    }
}

proof fn add_all_keeps_flat<'a>(b: LoweringView<'a>, made: Seq<(FuncId, FunctionView)>, count: nat)
    requires
        flat_lowering(b),
        flat_functions(made),
        count <= made.len(),
    ensures
        flat_lowering(b.add_all(made, count)),
    decreases count,
{
    broadcast use add_function_keeps_flat;

    reveal(LoweringView::add_all);
    if count > 0 {
        add_all_keeps_flat(b, made, (count - 1) as nat);
        assert(flat_function(made[count - 1].1));
    }
}

proof fn lowered_bodies_are_flat<'a>(
    context: ContextView<'a>,
    pending: Seq<PendingView<'a>>,
    next: u32,
    count: nat,
)
    requires
        flat_context(context),
        count <= pending.len(),
    ensures
        flat_functions(bodies_lowered(context, pending, next, count).built),
        flat_functions(bodies_lowered(context, pending, next, count).made),
    decreases count,
{
    if count > 0 {
        lowered_bodies_are_flat(context, pending, next, (count - 1) as nat);
        let earlier = bodies_lowered(context, pending, next, (count - 1) as nat);
        let held = pending[count - 1];
        if held.id.0 < context.program.functions.len() {
            reveal(body_lowered);
            let within = ContextView { module: held.module, ..context };
            let function = context.program.function(held.id);
            let mutated = in_block_view(*held.body, Seeking::Assigned);
            assert(flat_context(within) && flat_function(function)) by {
                reveal(flat_context);
                reveal(flat_program);
                assert(flat_function(context.program.functions[held.id.0 as int]));
            }
            a_fresh_body_is_flat(within, function, held.throws, mutated, earlier.next);
            let b = BodyView::fresh(within, function, held.throws, mutated, earlier.next);
            a_lowered_block_stays_flat(b, held.bindings, *held.body, u32::MAX as nat);
            reveal(flat_body);
        }
    }
}

pub(crate) broadcast proof fn lower_bodies_keeps_flat<'a>(b: LoweringView<'a>)
    requires
        flat_lowering(b),
    ensures
        flat_lowering(#[trigger] b.lower_bodies()),
{
    broadcast use more_gaps_keeps_flat;

    reveal(LoweringView::lower_bodies);
    let next = index_id_view(b.program.functions.len());
    let context = b.context(ModuleId(0));
    assert(flat_context(context)) by {
        reveal(flat_lowering);
        reveal(flat_context);
        reveal(LoweringView::context);
    }
    lowered_bodies_are_flat(context, b.bodies, next, b.bodies.len());
    let bodies = bodies_lowered(context, b.bodies, next, b.bodies.len());
    put_all_keeps_flat(b, bodies.built, bodies.built.len());
    let put = b.put_all(bodies.built, bodies.built.len()).more_gaps(bodies.gaps);
    add_all_keeps_flat(put, bodies.made, bodies.made.len());
}

pub(crate) broadcast proof fn derive_body_keeps_flat<'a>(
    b: LoweringView<'a>,
    id: FuncId,
    member: Seq<char>,
    owner: TypeId,
    span: Span,
)
    requires
        flat_lowering(b),
    ensures
        flat_lowering(#[trigger] b.derive_body(id, member, owner, span)),
{
    broadcast use {more_gaps_keeps_flat, put_function_keeps_flat};

    reveal(LoweringView::derive_body);
    if id.0 < b.program.functions.len() {
        let function = b.program.function(id);
        let context = b.context(ModuleId(0));
        assert(flat_context(context) && flat_function(function)) by {
            reveal(flat_lowering);
            reveal(flat_context);
            reveal(flat_program);
            reveal(LoweringView::context);
            assert(flat_function(b.program.functions[id.0 as int]));
        }
        a_fresh_body_is_flat(context, function, false, Seq::empty(), 0);
        let fresh = BodyView::fresh(context, function, false, Seq::empty(), 0);
        a_derived_member_stays_flat(fresh, member, owner, span);
        reveal(flat_body);
    }
}

/// No type of a program that was lowered has an optional directly in an optional: not
/// what a function takes or gives back, what a value or a slot of it holds, or what an
/// instruction names, and not what a declared type holds.
pub proof fn no_lowered_type_nests(
    graph: &Graph,
    table: &Table,
    facts: &Facts,
    mode: CompilationMode,
)
    ensures
        flat_program(lowered_view(graph, table, facts, mode).program),
{
    let start = LoweringView::start(graph, table, facts, mode);
    assert(flat_lowering(start)) by {
        reveal(flat_lowering);
        reveal(flat_program);
    }
    declare_all_keeps_flat(start);
    fill_all_keeps_flat(start.declare_all());
    reveal(flat_lowering);
}

} // verus!
