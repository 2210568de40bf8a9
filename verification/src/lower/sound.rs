//! That everything a program is lowered into names what is there.

use vstd::prelude::*;

use crate::ast::{Expr, FunctionItem, Item, Member, PropertyItem, Setter, Stmt};
use crate::inst::MethodId;
use crate::program::{
    finalizers_with, id_limit, FuncId, FunctionView, ImplementationView, InterfaceView,
    MethodView, NominalView, ProgramView, ShapeView,
};
use crate::sema::{
    recorded_at, DerivedMember, Entry, EnumType, Facts, Graph, InterfaceType, ModuleId, Node,
    Overloads, ParamType, Signature, StructType, Table, Type, VariantType,
};
use crate::span::Span;
use crate::ty::{TyView, TypeId};

use super::bodies::{first_signature_view, bodies_lowered, body_lowered, lowered_view};
use super::body::kinds::index_id_view;
use super::body::kept::carries_on;
use super::body::kept::a_derived_member_builds_no_closure;
use super::body::kept::{a_derived_member_carries_on, a_lowered_block_carries_on};
use super::body::sound::nested::{
    a_derived_member_names_what_is_there, a_fresh_body_fits, a_lowered_block_names_what_is_there,
};
use super::body::sound::{
    body_fits, callable, calls_fit, context_within, fits, members_within, nearly_well_formed,
    property_within,
};
use super::body::{
    BodyView, CalleeView, Constant, ContextView, FieldDefault, ParameterView, PropertyView,
};
use super::declare::{declared_shell_view, ids_of_view, Resolved};
use super::declared::{fitting_view, Found, Named};
use super::names::{in_block_view, Seeking};
use super::order::closures_take_the_next_ids;
use super::shells::{adapter_view, interface_in_view, shell_view};
use super::state::{implementor_from, Derived, LoweringView, OwnerView, PendingView};
use super::{CompilationMode, GapView};

verus! {

/// Something that names functions of a program, or the whole of what is known of
/// it.
pub enum Part {
    Whole,
    Func(FuncId),
    Funcs(Seq<FuncId>),
    Slots(Seq<Resolved>),
    Tables(Seq<ImplementationView>),
    Types(Seq<NominalView>),
    Nominal(NominalView),
    Function(FunctionView),
}

/// Whether each is one of the first `count` functions.
pub open spec fn funcs_within(ids: Seq<FuncId>, count: nat) -> bool {
    forall|i: int| 0 <= i < ids.len() ==> (#[trigger] ids[i]).0 < count
}

/// Whether each slot is filled by one of the first `count` functions.
pub open spec fn slots_within(held: Seq<Resolved>, count: nat) -> bool {
    forall|i: int| 0 <= i < held.len() ==> (#[trigger] held[i]).id.0 < count
}

/// Whether the method tables of each type name only the first `count` functions.
pub open spec fn types_within(types: Seq<NominalView>, count: nat) -> bool {
    forall|i: int| 0 <= i < types.len() ==> (#[trigger] types[i]).tables_within(count)
}

/// Whether each method table names only the first `count` functions.
pub open spec fn tables_within(held: Seq<ImplementationView>, count: nat) -> bool {
    forall|i: int, slot: int|
        0 <= i < held.len() && 0 <= slot < held[i].methods.len() ==> (
        #[trigger] held[i].methods[slot]).0 < count
}

/// Whether a function names only what is its own, and only the first `count`
/// functions.
pub open spec fn function_within(function: FunctionView, count: nat) -> bool {
    nearly_well_formed(function) && function.calls_within(count)
}

/// Whether each function a program names is one of the first `count`, and each of
/// its functions names only what is its own.
pub open spec fn program_within(program: ProgramView, count: nat) -> bool {
    &&& program.types.len() <= id_limit()
    &&& program.functions.len() <= id_limit()
    &&& forall|i: int|
        0 <= i < program.functions.len() ==> function_within(
            #[trigger] program.functions[i],
            count,
        )
    &&& types_within(program.types, count)
    &&& funcs_within(program.initializers, count)
    &&& forall|i: int|
        0 <= i < program.finalizers.len() ==> (#[trigger] program.finalizers[i]).1.0 < count
    &&& program.entry matches Some(entry) ==> entry.0 < count
}

/// Whether each declaration that became a function is one of the first `count`.
pub open spec fn found_within(b: LoweringView, count: nat) -> bool {
    &&& forall|i: int| 0 <= i < b.functions.len() ==> (#[trigger] b.functions[i]).1.id.0 < count
    &&& forall|i: int|
        0 <= i < b.properties.len() ==> property_within(#[trigger] b.properties[i], count)
    &&& members_within(b.displays, count)
    &&& members_within(b.equals, count)
    &&& members_within(b.hashes, count)
}

/// Whether the functions something names are there.
#[verifier::opaque]
pub open spec fn sound(b: LoweringView, part: Part) -> bool {
    let count = b.program.functions.len();
    match part {
        Part::Whole => program_within(b.program, count) && found_within(b, count),
        Part::Func(id) => id.0 < count,
        Part::Funcs(ids) => funcs_within(ids, count),
        Part::Slots(held) => slots_within(held, count),
        Part::Tables(held) => tables_within(held, count),
        Part::Types(types) => types_within(types, count),
        Part::Nominal(nominal) => nominal.tables_within(count),
        Part::Function(function) => function_within(function, count),
    }
}

proof fn still_sound(b: LoweringView, after: LoweringView, part: Part)
    requires
        sound(b, part),
        !(part is Whole),
        b.program.functions.len() <= after.program.functions.len(),
    ensures
        sound(after, part),
{
    reveal(sound);
}

broadcast proof fn a_shell_is_sound<'a>(
    b: LoweringView<'a>,
    name: Seq<char>,
    type_params: Seq<Seq<char>>,
    params: Seq<TyView>,
    result: TyView,
    span: Span,
    bodied: bool,
)
    ensures
        #[trigger] sound(
            b,
            Part::Function(shell_view(name, type_params, params, result, span, bodied)),
        ),
{
    reveal(sound);
}

broadcast proof fn a_declared_shell_is_sound<'a>(
    b: LoweringView<'a>,
    name: Seq<char>,
    owner: Option<OwnerView>,
    signature: Signature,
    function: FunctionItem,
    taken: Seq<ParameterView<'a>>,
    result: TyView,
    external: Option<Seq<char>>,
)
    ensures
        #[trigger] sound(
            b,
            Part::Function(
                declared_shell_view(name, owner, signature, function, taken, result, external),
            ),
        ),
{
    reveal(sound);
}

broadcast proof fn an_adapter_is_sound<'a>(
    b: LoweringView<'a>,
    source: FunctionView,
    name: Seq<char>,
    callee: FuncId,
)
    requires
        source.params.len() + 2 <= id_limit(),
        sound(b, Part::Func(callee)),
    ensures
        #[trigger] sound(b, Part::Function(adapter_view(source, name, callee))),
{
    reveal(sound);
}

broadcast proof fn a_new_type_is_sound<'a>(b: LoweringView<'a>, nominal: NominalView)
    requires
        nominal.shape matches ShapeView::Interface(held) ==> held.implementors.len() == 0,
    ensures
        #[trigger] sound(b, Part::Nominal(nominal)),
{
    reveal(sound);
}

broadcast proof fn each_func_is_sound<'a>(b: LoweringView<'a>, ids: Seq<FuncId>, i: int)
    requires
        sound(b, Part::Funcs(ids)),
        0 <= i < ids.len(),
    ensures
        #[trigger] sound(b, Part::Func(ids[i])),
{
    reveal(sound);
}

broadcast proof fn each_table_is_sound<'a>(
    b: LoweringView<'a>,
    held: Seq<ImplementationView>,
    i: int,
)
    requires
        sound(b, Part::Tables(held)),
        0 <= i < held.len(),
    ensures
        #[trigger] sound(b, Part::Funcs(held[i].methods)),
{
    reveal(sound);
    assert forall|slot: int| 0 <= slot < held[i].methods.len() implies (
    #[trigger] held[i].methods[slot]).0 < b.program.functions.len() by {}
}

broadcast proof fn tables_are_sound<'a>(
    b: LoweringView<'a>,
    types: Seq<NominalView>,
    i: int,
    held: InterfaceView,
)
    requires
        sound(b, Part::Types(types)),
        0 <= i < types.len(),
        interface_in_view(types[i]) == Some(held),
    ensures
        #![trigger interface_in_view(types[i]), sound(b, Part::Tables(held.implementors))]
        sound(b, Part::Tables(held.implementors)),
{
    reveal(sound);
    assert(types[i].tables_within(b.program.functions.len()));
}

broadcast proof fn types_are_sound<'a>(b: LoweringView<'a>)
    requires
        sound(b, Part::Whole),
    ensures
        #[trigger] sound(b, Part::Types(b.program.types)),
{
    reveal(sound);
}

broadcast proof fn slots_fill_soundly<'a>(b: LoweringView<'a>, held: Seq<Resolved>)
    requires
        sound(b, Part::Slots(held)),
    ensures
        #[trigger] sound(b, Part::Funcs(ids_of_view(held))),
{
    reveal(sound);
}

proof fn a_recorded_callee_is_sound(held: Seq<(Span, CalleeView)>, span: Span, count: nat)
    requires
        forall|i: int| 0 <= i < held.len() ==> (#[trigger] held[i]).1.id.0 < count,
    ensures
        recorded_at(held, span) matches Some(callee) ==> callee.id.0 < count,
    decreases held.len(),
{
    if held.len() > 0 {
        a_recorded_callee_is_sound(held.skip(1), span, count);
    }
}

proof fn a_callee_is_sound(b: LoweringView, span: Span)
    requires
        sound(b, Part::Whole),
    ensures
        b.callee_of(span) matches Some(callee) ==> callee.id.0 < b.program.functions.len(),
{
    reveal(sound);
    reveal(LoweringView::callee_of);
    a_recorded_callee_is_sound(b.functions, span, b.program.functions.len());
}

proof fn resolving_is_sound(
    b: LoweringView,
    methods: Seq<Overloads>,
    wanted: Seq<MethodView>,
    count: nat,
)
    requires
        sound(b, Part::Whole),
    ensures
        sound(b, Part::Slots(b.resolved_until(methods, wanted, count))),
    decreases count,
{
    reveal(sound);
    if count > 0 {
        resolving_is_sound(b, methods, wanted, (count - 1) as nat);
        reveal(LoweringView::resolved_at);
        let slot = wanted[count - 1];
        match fitting_view(methods, slot.name, slot.params.len()) {
            Some(span) => {
                a_callee_is_sound(b, span);
            },
            None => {},
        }
    }
}

broadcast proof fn resolved_is_sound<'a>(
    b: LoweringView<'a>,
    methods: Seq<Overloads>,
    wanted: Seq<MethodView>,
)
    requires
        sound(b, Part::Whole),
    ensures
        #[trigger] sound(b, Part::Slots(b.resolved(methods, wanted))),
{
    reveal(LoweringView::resolved);
    resolving_is_sound(b, methods, wanted, wanted.len());
}

broadcast group parts {
    a_shell_is_sound,
    a_declared_shell_is_sound,
    an_adapter_is_sound,
    a_new_type_is_sound,
    each_func_is_sound,
    each_table_is_sound,
    tables_are_sound,
    types_are_sound,
    slots_fill_soundly,
    resolved_is_sound,
}

broadcast proof fn gap_is_sound<'a>(
    b: LoweringView<'a>,
    span: Span,
    what: Seq<char>,
    part: Part,
)
    requires
        sound(b, Part::Whole),
        sound(b, part),
    ensures
        #[trigger] sound(b.gap(span, what), part),
{
    reveal(sound);
    reveal(LoweringView::gap);
    if !(part is Whole) {
        still_sound(b, b.gap(span, what), part);
    }
}

broadcast proof fn convert_is_sound<'a>(
    b: LoweringView<'a>,
    ty: Type,
    span: Span,
    part: Part,
)
    requires
        sound(b, Part::Whole),
        sound(b, part),
    ensures
        #[trigger] sound(b.convert(ty, span).0, part),
{
    broadcast use {parts, gap_is_sound};

    reveal(LoweringView::convert);
}

broadcast proof fn add_type_is_sound<'a>(
    b: LoweringView<'a>,
    nominal: NominalView,
    part: Part,
)
    requires
        sound(b, Part::Whole),
        sound(b, Part::Nominal(nominal)),
        sound(b, part),
    ensures
        #[trigger] sound(b.add_type(nominal), part),
{
    reveal(sound);
    reveal(LoweringView::gap);
    reveal(LoweringView::add_type);
    if !(part is Whole) {
        still_sound(b, b.add_type(nominal), part);
    }
}

broadcast proof fn add_function_is_sound<'a>(
    b: LoweringView<'a>,
    function: FunctionView,
    part: Part,
)
    requires
        sound(b, Part::Whole),
        sound(b, Part::Function(function)),
        sound(b, part),
    ensures
        #[trigger] sound(b.add_function(function).0, part),
{
    reveal(sound);
    reveal(LoweringView::gap);
    reveal(LoweringView::add_function);
    if !(part is Whole) {
        still_sound(b, b.add_function(function).0, part);
    }
}

broadcast proof fn add_function_gives<'a>(
    b: LoweringView<'a>,
    function: FunctionView,
)
    requires
        sound(b, Part::Whole),
        sound(b, Part::Function(function)),
    ensures
        #[trigger] sound(b.add_function(function).0, Part::Func(b.add_function(function).1)),
{
    reveal(sound);
    reveal(LoweringView::gap);
    reveal(LoweringView::add_function);
}

broadcast proof fn put_function_is_sound<'a>(
    b: LoweringView<'a>,
    id: FuncId,
    function: FunctionView,
    part: Part,
)
    requires
        sound(b, Part::Whole),
        sound(b, Part::Function(function)),
        sound(b, part),
    ensures
        #[trigger] sound(b.put_function(id, function), part),
{
    reveal(sound);
    reveal(LoweringView::put_function);
    if !(part is Whole) {
        still_sound(b, b.put_function(id, function), part);
    }
}

broadcast proof fn name_type_is_sound<'a>(
    b: LoweringView<'a>,
    module: ModuleId,
    name: &'a String,
    part: Part,
)
    requires
        sound(b, Part::Whole),
        sound(b, part),
    ensures
        #[trigger] sound(b.name_type(module, name), part),
{
    reveal(sound);
    reveal(LoweringView::name_type);
    if !(part is Whole) {
        still_sound(b, b.name_type(module, name), part);
    }
}

broadcast proof fn put_constant_is_sound<'a>(
    b: LoweringView<'a>,
    held: Constant<'a>,
    part: Part,
)
    requires
        sound(b, Part::Whole),
        sound(b, part),
    ensures
        #[trigger] sound(b.put_constant(held), part),
{
    reveal(sound);
    reveal(LoweringView::put_constant);
    if !(part is Whole) {
        still_sound(b, b.put_constant(held), part);
    }
}

broadcast proof fn put_callee_is_sound<'a>(
    b: LoweringView<'a>,
    span: Span,
    callee: CalleeView<'a>,
    part: Part,
)
    requires
        sound(b, Part::Whole),
        sound(b, Part::Func(callee.id)),
        sound(b, part),
    ensures
        #[trigger] sound(b.put_callee(span, callee), part),
{
    reveal(sound);
    reveal(LoweringView::put_callee);
    if !(part is Whole) {
        still_sound(b, b.put_callee(span, callee), part);
    }
}

broadcast proof fn put_virtual_is_sound<'a>(
    b: LoweringView<'a>,
    span: Span,
    method: MethodId,
    part: Part,
)
    requires
        sound(b, Part::Whole),
        sound(b, part),
    ensures
        #[trigger] sound(b.put_virtual(span, method), part),
{
    reveal(sound);
    reveal(LoweringView::put_virtual);
    if !(part is Whole) {
        still_sound(b, b.put_virtual(span, method), part);
    }
}

broadcast proof fn put_default_is_sound<'a>(
    b: LoweringView<'a>,
    held: FieldDefault<'a>,
    part: Part,
)
    requires
        sound(b, Part::Whole),
        sound(b, part),
    ensures
        #[trigger] sound(b.put_default(held), part),
{
    reveal(sound);
    reveal(LoweringView::put_default);
    if !(part is Whole) {
        still_sound(b, b.put_default(held), part);
    }
}

broadcast proof fn put_property_is_sound<'a>(
    b: LoweringView<'a>,
    held: PropertyView<'a>,
    part: Part,
)
    requires
        sound(b, Part::Whole),
        sound(b, Part::Func(held.get)),
        held.set matches Some(set) ==> sound(b, Part::Func(set)),
        sound(b, part),
    ensures
        #[trigger] sound(b.put_property(held), part),
{
    reveal(sound);
    reveal(LoweringView::put_property);
    if !(part is Whole) {
        still_sound(b, b.put_property(held), part);
    }
}

broadcast proof fn push_body_is_sound<'a>(
    b: LoweringView<'a>,
    held: PendingView<'a>,
    part: Part,
)
    requires
        sound(b, Part::Whole),
        sound(b, part),
    ensures
        #[trigger] sound(b.push_body(held), part),
{
    reveal(sound);
    reveal(LoweringView::push_body);
    if !(part is Whole) {
        still_sound(b, b.push_body(held), part);
    }
}

broadcast proof fn push_derived_is_sound<'a>(
    b: LoweringView<'a>,
    held: Derived<'a>,
    part: Part,
)
    requires
        sound(b, Part::Whole),
        sound(b, part),
    ensures
        #[trigger] sound(b.push_derived(held), part),
{
    reveal(sound);
    reveal(LoweringView::push_derived);
    if !(part is Whole) {
        still_sound(b, b.push_derived(held), part);
    }
}

broadcast proof fn set_entry_is_sound<'a>(
    b: LoweringView<'a>,
    id: FuncId,
    part: Part,
)
    requires
        sound(b, Part::Whole),
        sound(b, Part::Func(id)),
        sound(b, part),
    ensures
        #[trigger] sound(b.set_entry(id), part),
{
    reveal(sound);
    reveal(LoweringView::set_entry);
    if !(part is Whole) {
        still_sound(b, b.set_entry(id), part);
    }
}

broadcast proof fn push_initializer_is_sound<'a>(
    b: LoweringView<'a>,
    id: FuncId,
    part: Part,
)
    requires
        sound(b, Part::Whole),
        sound(b, Part::Func(id)),
        sound(b, part),
    ensures
        #[trigger] sound(b.push_initializer(id), part),
{
    reveal(sound);
    reveal(LoweringView::push_initializer);
    if !(part is Whole) {
        still_sound(b, b.push_initializer(id), part);
    }
}

broadcast proof fn set_finalizer_is_sound<'a>(
    b: LoweringView<'a>,
    ty: TyView,
    id: FuncId,
    part: Part,
)
    requires
        sound(b, Part::Whole),
        sound(b, Part::Func(id)),
        sound(b, part),
    ensures
        #[trigger] sound(b.set_finalizer(ty, id), part),
{
    reveal(sound);
    reveal(LoweringView::set_finalizer);
    finalizers_stay_within(b.program.finalizers, ty, id, b.program.functions.len());
    if !(part is Whole) {
        still_sound(b, b.set_finalizer(ty, id), part);
    }
}

broadcast proof fn virtual_adapter_is_sound<'a>(
    b: LoweringView<'a>,
    callee: FuncId,
    part: Part,
)
    requires
        sound(b, Part::Whole),
        sound(b, Part::Func(callee)),
        sound(b, part),
    ensures
        #[trigger] sound(b.virtual_adapter(callee).0, part),
{
    broadcast use {parts, add_function_is_sound, add_function_gives, gap_is_sound};

    reveal(LoweringView::virtual_adapter);
}

broadcast proof fn virtual_adapter_gives<'a>(
    b: LoweringView<'a>,
    callee: FuncId,
)
    requires
        sound(b, Part::Whole),
        sound(b, Part::Func(callee)),
    ensures
        #[trigger] sound(b.virtual_adapter(callee).0, Part::Func(b.virtual_adapter(callee).1)),
{
    broadcast use {parts, add_function_is_sound, add_function_gives, gap_is_sound};

    reveal(LoweringView::virtual_adapter);
}

broadcast proof fn collect_constants_is_sound<'a>(
    b: LoweringView<'a>,
    modules: Seq<Node>,
    count: nat,
    part: Part,
)
    requires
        sound(b, Part::Whole),
        sound(b, part),
    ensures
        #[trigger] sound(b.collect_constants(modules, count), part),
    decreases count,
{
    broadcast use {parts, constants_in_is_sound};

    reveal(LoweringView::collect_constants);
    if count > 0 {
        collect_constants_is_sound(b, modules, (count - 1) as nat, Part::Whole);
        collect_constants_is_sound(b, modules, (count - 1) as nat, part);
    }
}

broadcast proof fn constants_in_is_sound<'a>(
    b: LoweringView<'a>,
    module: ModuleId,
    stmts: Seq<Stmt>,
    count: nat,
    part: Part,
)
    requires
        sound(b, Part::Whole),
        sound(b, part),
    ensures
        #[trigger] sound(b.constants_in(module, stmts, count), part),
    decreases count,
{
    broadcast use {parts, put_constant_is_sound};

    reveal(LoweringView::constants_in);
    if count > 0 {
        constants_in_is_sound(b, module, stmts, (count - 1) as nat, Part::Whole);
        constants_in_is_sound(b, module, stmts, (count - 1) as nat, part);
    }
}

broadcast proof fn name_types_is_sound<'a>(
    b: LoweringView<'a>,
    entries: Seq<Entry>,
    count: nat,
    part: Part,
)
    requires
        sound(b, Part::Whole),
        sound(b, part),
    ensures
        #[trigger] sound(b.name_types(entries, count), part),
    decreases count,
{
    broadcast use {parts, name_type_is_sound};

    reveal(LoweringView::name_types);
    if count > 0 {
        name_types_is_sound(b, entries, (count - 1) as nat, Part::Whole);
        name_types_is_sound(b, entries, (count - 1) as nat, part);
    }
}

broadcast proof fn build_types_is_sound<'a>(
    b: LoweringView<'a>,
    entries: Seq<Entry>,
    count: nat,
    part: Part,
)
    requires
        sound(b, Part::Whole),
        sound(b, part),
    ensures
        #[trigger] sound(b.build_types(entries, count), part),
    decreases count,
{
    broadcast use {parts, structure_is_sound, enumeration_is_sound, interface_is_sound};

    reveal(LoweringView::build_types);
    if count > 0 {
        build_types_is_sound(b, entries, (count - 1) as nat, Part::Whole);
        build_types_is_sound(b, entries, (count - 1) as nat, part);
    }
}

broadcast proof fn structure_is_sound<'a>(
    b: LoweringView<'a>,
    entry: Entry,
    held: StructType,
    part: Part,
)
    requires
        sound(b, Part::Whole),
        sound(b, part),
    ensures
        #[trigger] sound(b.structure(entry, held), part),
{
    broadcast use {parts, fields_is_sound, keep_defaults_is_sound, add_type_is_sound};

    reveal(LoweringView::structure);
}

broadcast proof fn keep_defaults_is_sound<'a>(
    b: LoweringView<'a>,
    id: TypeId,
    defaults: Seq<Option<&'a Expr>>,
    count: nat,
    part: Part,
)
    requires
        sound(b, Part::Whole),
        sound(b, part),
    ensures
        #[trigger] sound(b.keep_defaults(id, defaults, count), part),
    decreases count,
{
    broadcast use {parts, put_default_is_sound};

    reveal(LoweringView::keep_defaults);
    if count > 0 {
        keep_defaults_is_sound(b, id, defaults, (count - 1) as nat, Part::Whole);
        keep_defaults_is_sound(b, id, defaults, (count - 1) as nat, part);
    }
}

broadcast proof fn fields_is_sound<'a>(
    b: LoweringView<'a>,
    declared: Seq<(String, Type)>,
    span: Span,
    count: nat,
    part: Part,
)
    requires
        sound(b, Part::Whole),
        sound(b, part),
    ensures
        #[trigger] sound(b.fields(declared, span, count).0, part),
    decreases count,
{
    broadcast use {parts, convert_is_sound};

    reveal(LoweringView::fields);
    if count > 0 {
        fields_is_sound(b, declared, span, (count - 1) as nat, Part::Whole);
        fields_is_sound(b, declared, span, (count - 1) as nat, part);
    }
}

broadcast proof fn numbered_fields_is_sound<'a>(
    b: LoweringView<'a>,
    types: Seq<Type>,
    span: Span,
    count: nat,
    part: Part,
)
    requires
        sound(b, Part::Whole),
        sound(b, part),
    ensures
        #[trigger] sound(b.numbered_fields(types, span, count).0, part),
    decreases count,
{
    broadcast use {parts, convert_is_sound};

    reveal(LoweringView::numbered_fields);
    if count > 0 {
        numbered_fields_is_sound(b, types, span, (count - 1) as nat, Part::Whole);
        numbered_fields_is_sound(b, types, span, (count - 1) as nat, part);
    }
}

broadcast proof fn enumeration_is_sound<'a>(
    b: LoweringView<'a>,
    entry: Entry,
    held: EnumType,
    part: Part,
)
    requires
        sound(b, Part::Whole),
        sound(b, part),
    ensures
        #[trigger] sound(b.enumeration(entry, held), part),
{
    broadcast use {parts, variants_is_sound, add_type_is_sound};

    reveal(LoweringView::enumeration);
}

broadcast proof fn variants_is_sound<'a>(
    b: LoweringView<'a>,
    order: Seq<String>,
    declared: Seq<(String, VariantType)>,
    span: Span,
    count: nat,
    part: Part,
)
    requires
        sound(b, Part::Whole),
        sound(b, part),
    ensures
        #[trigger] sound(b.variants(order, declared, span, count).0, part),
    decreases count,
{
    broadcast use {parts, numbered_fields_is_sound, fields_is_sound};

    reveal(LoweringView::variants);
    if count > 0 {
        variants_is_sound(b, order, declared, span, (count - 1) as nat, Part::Whole);
        variants_is_sound(b, order, declared, span, (count - 1) as nat, part);
    }
}

broadcast proof fn interface_is_sound<'a>(
    b: LoweringView<'a>,
    entry: Entry,
    held: InterfaceType,
    part: Part,
)
    requires
        sound(b, Part::Whole),
        sound(b, part),
    ensures
        #[trigger] sound(b.interface(entry, held), part),
{
    broadcast use {parts, methods_is_sound, add_type_is_sound};

    reveal(LoweringView::interface);
}

broadcast proof fn methods_is_sound<'a>(
    b: LoweringView<'a>,
    id: TypeId,
    all: Seq<Named<'a>>,
    span: Span,
    count: nat,
    part: Part,
)
    requires
        sound(b, Part::Whole),
        sound(b, part),
    ensures
        #[trigger] sound(b.methods(id, all, span, count).0, part),
    decreases count,
{
    broadcast use {parts, param_types_is_sound, convert_is_sound, put_virtual_is_sound};

    reveal(LoweringView::methods);
    if count > 0 {
        methods_is_sound(b, id, all, span, (count - 1) as nat, Part::Whole);
        methods_is_sound(b, id, all, span, (count - 1) as nat, part);
    }
}

broadcast proof fn param_types_is_sound<'a>(
    b: LoweringView<'a>,
    params: Seq<ParamType>,
    span: Span,
    count: nat,
    part: Part,
)
    requires
        sound(b, Part::Whole),
        sound(b, part),
    ensures
        #[trigger] sound(b.param_types(params, span, count).0, part),
    decreases count,
{
    broadcast use {parts, convert_is_sound};

    reveal(LoweringView::param_types);
    if count > 0 {
        param_types_is_sound(b, params, span, (count - 1) as nat, Part::Whole);
        param_types_is_sound(b, params, span, (count - 1) as nat, part);
    }
}

broadcast proof fn declare_functions_is_sound<'a>(
    b: LoweringView<'a>,
    found: Seq<Found<'a>>,
    count: nat,
    part: Part,
)
    requires
        sound(b, Part::Whole),
        sound(b, part),
    ensures
        #[trigger] sound(b.declare_functions(found, count), part),
    decreases count,
{
    broadcast use {parts, declare_is_sound};

    reveal(LoweringView::declare_functions);
    if count > 0 {
        declare_functions_is_sound(b, found, (count - 1) as nat, Part::Whole);
        declare_functions_is_sound(b, found, (count - 1) as nat, part);
    }
}

broadcast proof fn declare_is_sound<'a>(
    b: LoweringView<'a>,
    found: Found<'a>,
    part: Part,
)
    requires
        sound(b, Part::Whole),
        sound(b, part),
    ensures
        #[trigger] sound(b.declare(found), part),
{
    broadcast use {
        parts, gap_is_sound, taken_is_sound, convert_is_sound, add_function_is_sound,
        add_function_gives, put_callee_is_sound, set_entry_is_sound, push_body_is_sound,
    };

    reveal(LoweringView::declare);
}

broadcast proof fn taken_is_sound<'a>(
    b: LoweringView<'a>,
    function: FunctionItem,
    takes_self: bool,
    params: Seq<ParamType>,
    span: Span,
    count: nat,
    part: Part,
)
    requires
        sound(b, Part::Whole),
        sound(b, part),
    ensures
        #[trigger] sound(b.taken(function, takes_self, params, span, count).0, part),
    decreases count,
{
    broadcast use {parts, convert_is_sound};

    reveal(LoweringView::taken);
    if count > 0 {
        taken_is_sound(b, function, takes_self, params, span, (count - 1) as nat, Part::Whole);
        taken_is_sound(b, function, takes_self, params, span, (count - 1) as nat, part);
    }
}

broadcast proof fn declare_initializers_is_sound<'a>(
    b: LoweringView<'a>,
    order: Seq<ModuleId>,
    count: nat,
    part: Part,
)
    requires
        sound(b, Part::Whole),
        sound(b, part),
    ensures
        #[trigger] sound(b.declare_initializers(order, count), part),
    decreases count,
{
    broadcast use {parts, declare_initializer_is_sound};

    reveal(LoweringView::declare_initializers);
    if count > 0 {
        declare_initializers_is_sound(b, order, (count - 1) as nat, Part::Whole);
        declare_initializers_is_sound(b, order, (count - 1) as nat, part);
    }
}

broadcast proof fn declare_initializer_is_sound<'a>(
    b: LoweringView<'a>,
    module: ModuleId,
    node: Node,
    part: Part,
)
    requires
        sound(b, Part::Whole),
        sound(b, part),
    ensures
        #[trigger] sound(b.declare_initializer(module, node), part),
{
    broadcast use {
        parts, add_function_is_sound, add_function_gives, push_initializer_is_sound,
        push_body_is_sound,
    };

    reveal(LoweringView::declare_initializer);
}

broadcast proof fn declare_finalizers_is_sound<'a>(
    b: LoweringView<'a>,
    modules: Seq<Node>,
    count: nat,
    part: Part,
)
    requires
        sound(b, Part::Whole),
        sound(b, part),
    ensures
        #[trigger] sound(b.declare_finalizers(modules, count), part),
    decreases count,
{
    broadcast use {parts, finalizers_in_is_sound};

    reveal(LoweringView::declare_finalizers);
    if count > 0 {
        declare_finalizers_is_sound(b, modules, (count - 1) as nat, Part::Whole);
        declare_finalizers_is_sound(b, modules, (count - 1) as nat, part);
    }
}

broadcast proof fn finalizers_in_is_sound<'a>(
    b: LoweringView<'a>,
    module: ModuleId,
    items: Seq<Item>,
    count: nat,
    part: Part,
)
    requires
        sound(b, Part::Whole),
        sound(b, part),
    ensures
        #[trigger] sound(b.finalizers_in(module, items, count), part),
    decreases count,
{
    broadcast use {parts, finalizers_of_is_sound};

    reveal(LoweringView::finalizers_in);
    if count > 0 {
        finalizers_in_is_sound(b, module, items, (count - 1) as nat, Part::Whole);
        finalizers_in_is_sound(b, module, items, (count - 1) as nat, part);
    }
}

broadcast proof fn finalizers_of_is_sound<'a>(
    b: LoweringView<'a>,
    module: ModuleId,
    owner: &'a String,
    members: Seq<Member>,
    count: nat,
    part: Part,
)
    requires
        sound(b, Part::Whole),
        sound(b, part),
    ensures
        #[trigger] sound(b.finalizers_of(module, owner, members, count), part),
    decreases count,
{
    broadcast use {parts, declare_finalizer_is_sound};

    reveal(LoweringView::finalizers_of);
    if count > 0 {
        finalizers_of_is_sound(b, module, owner, members, (count - 1) as nat, Part::Whole);
        finalizers_of_is_sound(b, module, owner, members, (count - 1) as nat, part);
    }
}

broadcast proof fn declare_finalizer_is_sound<'a>(
    b: LoweringView<'a>,
    module: ModuleId,
    owner: &'a String,
    function: FunctionItem,
    part: Part,
)
    requires
        sound(b, Part::Whole),
        sound(b, part),
    ensures
        #[trigger] sound(b.declare_finalizer(module, owner, function), part),
{
    broadcast use {
        parts, add_function_is_sound, add_function_gives, set_finalizer_is_sound,
        push_body_is_sound,
    };

    reveal(LoweringView::declare_finalizer);
}

broadcast proof fn declare_properties_is_sound<'a>(
    b: LoweringView<'a>,
    modules: Seq<Node>,
    count: nat,
    part: Part,
)
    requires
        sound(b, Part::Whole),
        sound(b, part),
    ensures
        #[trigger] sound(b.declare_properties(modules, count), part),
    decreases count,
{
    broadcast use {parts, properties_in_is_sound};

    reveal(LoweringView::declare_properties);
    if count > 0 {
        declare_properties_is_sound(b, modules, (count - 1) as nat, Part::Whole);
        declare_properties_is_sound(b, modules, (count - 1) as nat, part);
    }
}

broadcast proof fn properties_in_is_sound<'a>(
    b: LoweringView<'a>,
    module: ModuleId,
    items: Seq<Item>,
    count: nat,
    part: Part,
)
    requires
        sound(b, Part::Whole),
        sound(b, part),
    ensures
        #[trigger] sound(b.properties_in(module, items, count), part),
    decreases count,
{
    broadcast use {parts, properties_of_is_sound};

    reveal(LoweringView::properties_in);
    if count > 0 {
        properties_in_is_sound(b, module, items, (count - 1) as nat, Part::Whole);
        properties_in_is_sound(b, module, items, (count - 1) as nat, part);
    }
}

broadcast proof fn properties_of_is_sound<'a>(
    b: LoweringView<'a>,
    module: ModuleId,
    owner: &'a String,
    members: Seq<Member>,
    count: nat,
    part: Part,
)
    requires
        sound(b, Part::Whole),
        sound(b, part),
    ensures
        #[trigger] sound(b.properties_of(module, owner, members, count), part),
    decreases count,
{
    broadcast use {parts, declare_property_is_sound};

    reveal(LoweringView::properties_of);
    if count > 0 {
        properties_of_is_sound(b, module, owner, members, (count - 1) as nat, Part::Whole);
        properties_of_is_sound(b, module, owner, members, (count - 1) as nat, part);
    }
}

broadcast proof fn declare_property_is_sound<'a>(
    b: LoweringView<'a>,
    module: ModuleId,
    owner: &'a String,
    property: PropertyItem,
    part: Part,
)
    requires
        sound(b, Part::Whole),
        sound(b, part),
    ensures
        #[trigger] sound(b.declare_property(module, owner, property), part),
{
    broadcast use {
        parts, convert_is_sound, add_function_is_sound, add_function_gives, push_body_is_sound,
        declare_setter_is_sound, declare_setter_gives, put_property_is_sound, gap_is_sound,
    };

    reveal(LoweringView::declare_property);
}

broadcast proof fn declare_setter_is_sound<'a>(
    b: LoweringView<'a>,
    module: ModuleId,
    path: Seq<char>,
    setter: Setter,
    params: Seq<Seq<char>>,
    receiver: TyView,
    ty: TyView,
    part: Part,
)
    requires
        sound(b, Part::Whole),
        sound(b, part),
    ensures
        #[trigger] sound(b.declare_setter(module, path, setter, params, receiver, ty).0, part),
{
    broadcast use {parts, add_function_is_sound, add_function_gives, push_body_is_sound};

    reveal(LoweringView::declare_setter);
}

broadcast proof fn declare_setter_gives<'a>(
    b: LoweringView<'a>,
    module: ModuleId,
    path: Seq<char>,
    setter: Setter,
    params: Seq<Seq<char>>,
    receiver: TyView,
    ty: TyView,
)
    requires
        sound(b, Part::Whole),
    ensures
        #[trigger] sound(
            b.declare_setter(module, path, setter, params, receiver, ty).0,
            Part::Func(b.declare_setter(module, path, setter, params, receiver, ty).1),
        ),
{
    broadcast use {parts, add_function_is_sound, add_function_gives, push_body_is_sound};

    reveal(LoweringView::declare_setter);
}

broadcast proof fn declare_derived_is_sound<'a>(
    b: LoweringView<'a>,
    members: Seq<DerivedMember>,
    count: nat,
    part: Part,
)
    requires
        sound(b, Part::Whole),
        sound(b, part),
    ensures
        #[trigger] sound(b.declare_derived(members, count), part),
    decreases count,
{
    broadcast use {parts, declare_one_is_sound};

    reveal(LoweringView::declare_derived);
    if count > 0 {
        declare_derived_is_sound(b, members, (count - 1) as nat, Part::Whole);
        declare_derived_is_sound(b, members, (count - 1) as nat, part);
    }
}

broadcast proof fn declare_one_is_sound<'a>(
    b: LoweringView<'a>,
    module: ModuleId,
    owner: &'a String,
    member: DerivedMember,
    part: Part,
)
    requires
        sound(b, Part::Whole),
        sound(b, part),
    ensures
        #[trigger] sound(b.declare_one(module, owner, member), part),
{
    broadcast use {
        parts, convert_is_sound, plainly_taken_is_sound, add_function_is_sound,
        add_function_gives, put_callee_is_sound, push_derived_is_sound,
    };

    reveal(LoweringView::declare_one);
}

broadcast proof fn plainly_taken_is_sound<'a>(
    b: LoweringView<'a>,
    params: Seq<ParamType>,
    span: Span,
    count: nat,
    part: Part,
)
    requires
        sound(b, Part::Whole),
        sound(b, part),
    ensures
        #[trigger] sound(b.plainly_taken(params, span, count).0, part),
    decreases count,
{
    broadcast use {parts, convert_is_sound};

    reveal(LoweringView::plainly_taken);
    if count > 0 {
        plainly_taken_is_sound(b, params, span, (count - 1) as nat, Part::Whole);
        plainly_taken_is_sound(b, params, span, (count - 1) as nat, part);
    }
}

broadcast proof fn build_vtables_is_sound<'a>(
    b: LoweringView<'a>,
    entries: Seq<Entry>,
    count: nat,
    part: Part,
)
    requires
        sound(b, Part::Whole),
        sound(b, part),
    ensures
        #[trigger] sound(b.build_vtables(entries, count), part),
    decreases count,
{
    broadcast use {parts, implement_all_is_sound};

    reveal(LoweringView::build_vtables);
    if count > 0 {
        build_vtables_is_sound(b, entries, (count - 1) as nat, Part::Whole);
        build_vtables_is_sound(b, entries, (count - 1) as nat, part);
    }
}

broadcast proof fn implement_all_is_sound<'a>(
    b: LoweringView<'a>,
    entry: Entry,
    held: StructType,
    claims: Seq<Type>,
    count: nat,
    part: Part,
)
    requires
        sound(b, Part::Whole),
        sound(b, part),
    ensures
        #[trigger] sound(b.implement_all(entry, held, claims, count), part),
    decreases count,
{
    broadcast use {parts, implement_is_sound};

    reveal(LoweringView::implement_all);
    if count > 0 {
        implement_all_is_sound(b, entry, held, claims, (count - 1) as nat, Part::Whole);
        implement_all_is_sound(b, entry, held, claims, (count - 1) as nat, part);
    }
}

broadcast proof fn implement_is_sound<'a>(
    b: LoweringView<'a>,
    entry: Entry,
    held: StructType,
    id: TypeId,
    claim: Type,
    part: Part,
)
    requires
        sound(b, Part::Whole),
        sound(b, part),
    ensures
        #[trigger] sound(b.implement(entry, held, id, claim), part),
{
    broadcast use {parts, note_throwing_is_sound, gap_is_sound, push_implementor_is_sound};

    reveal(LoweringView::implement);
}

broadcast proof fn note_throwing_is_sound<'a>(
    b: LoweringView<'a>,
    interface: TypeId,
    found: Seq<Resolved>,
    count: nat,
    part: Part,
)
    requires
        sound(b, Part::Whole),
        sound(b, part),
    ensures
        #[trigger] sound(b.note_throwing(interface, found, count), part),
    decreases count,
{
    broadcast use {parts, mark_throwing_is_sound};

    reveal(LoweringView::note_throwing);
    if count > 0 {
        note_throwing_is_sound(b, interface, found, (count - 1) as nat, Part::Whole);
        note_throwing_is_sound(b, interface, found, (count - 1) as nat, part);
    }
}

broadcast proof fn adapt_throwing_virtuals_is_sound<'a>(
    b: LoweringView<'a>,
    types: Seq<NominalView>,
    count: nat,
    part: Part,
)
    requires
        sound(b, Part::Whole),
        sound(b, Part::Types(types)),
        count <= types.len(),
        sound(b, part),
    ensures
        #[trigger] sound(b.adapt_throwing_virtuals(types, count), part),
    decreases count,
{
    broadcast use {parts, adapt_implementors_is_sound};

    reveal(LoweringView::adapt_throwing_virtuals);
    if count > 0 {
        adapt_throwing_virtuals_is_sound(b, types, (count - 1) as nat, Part::Whole);
        adapt_throwing_virtuals_is_sound(b, types, (count - 1) as nat, Part::Types(types));
        adapt_throwing_virtuals_is_sound(b, types, (count - 1) as nat, part);
    }
}

broadcast proof fn adapt_implementors_is_sound<'a>(
    b: LoweringView<'a>,
    interface: TypeId,
    methods: Seq<MethodView>,
    implementors: Seq<ImplementationView>,
    count: nat,
    part: Part,
)
    requires
        sound(b, Part::Whole),
        sound(b, Part::Tables(implementors)),
        count <= implementors.len(),
        sound(b, part),
    ensures
        #[trigger] sound(b.adapt_implementors(interface, methods, implementors, count), part),
    decreases count,
{
    broadcast use {parts, adapt_slots_is_sound};

    reveal(LoweringView::adapt_implementors);
    if count > 0 {
        adapt_implementors_is_sound(
            b,
            interface,
            methods,
            implementors,
            (count - 1) as nat,
            Part::Whole,
        );
        adapt_implementors_is_sound(
            b,
            interface,
            methods,
            implementors,
            (count - 1) as nat,
            Part::Tables(implementors),
        );
        adapt_implementors_is_sound(b, interface, methods, implementors, (count - 1) as nat, part);
    }
}

broadcast proof fn adapt_slots_is_sound<'a>(
    b: LoweringView<'a>,
    interface: TypeId,
    methods: Seq<MethodView>,
    ty: TyView,
    callees: Seq<FuncId>,
    count: nat,
    part: Part,
)
    requires
        sound(b, Part::Whole),
        sound(b, Part::Funcs(callees)),
        count <= callees.len(),
        sound(b, part),
    ensures
        #[trigger] sound(b.adapt_slots(interface, methods, ty, callees, count), part),
    decreases count,
{
    broadcast use {parts, virtual_adapter_is_sound, virtual_adapter_gives, set_slot_is_sound};

    reveal(LoweringView::adapt_slots);
    if count > 0 {
        adapt_slots_is_sound(b, interface, methods, ty, callees, (count - 1) as nat, Part::Whole);
        adapt_slots_is_sound(
            b,
            interface,
            methods,
            ty,
            callees,
            (count - 1) as nat,
            Part::Funcs(callees),
        );
        adapt_slots_is_sound(b, interface, methods, ty, callees, (count - 1) as nat, part);
    }
}

broadcast proof fn write_derived_is_sound<'a>(
    b: LoweringView<'a>,
    derived: Seq<Derived<'a>>,
    count: nat,
    part: Part,
)
    requires
        sound(b, Part::Whole),
        sound(b, part),
    ensures
        #[trigger] sound(b.write_derived(derived, count), part),
    decreases count,
{
    broadcast use {parts, convert_is_sound, derive_body_is_sound};

    reveal(LoweringView::write_derived);
    if count > 0 {
        write_derived_is_sound(b, derived, (count - 1) as nat, Part::Whole);
        write_derived_is_sound(b, derived, (count - 1) as nat, part);
    }
}

broadcast proof fn find_throwing_is_sound<'a>(
    b: LoweringView<'a>,
    found: Seq<Found<'a>>,
    part: Part,
)
    requires
        sound(b, Part::Whole),
        sound(b, part),
    ensures
        #[trigger] sound(b.find_throwing(found), part),
{
    reveal(sound);
    reveal(LoweringView::find_throwing);
    if !(part is Whole) {
        still_sound(b, b.find_throwing(found), part);
    }
}

broadcast proof fn more_gaps_is_sound<'a>(
    b: LoweringView<'a>,
    gaps: Seq<GapView>,
    part: Part,
)
    requires
        sound(b, Part::Whole),
        sound(b, part),
    ensures
        #[trigger] sound(b.more_gaps(gaps), part),
{
    reveal(sound);
    reveal(LoweringView::more_gaps);
    if !(part is Whole) {
        still_sound(b, b.more_gaps(gaps), part);
    }
}

broadcast proof fn declare_all_is_sound<'a>(
    b: LoweringView<'a>,
    part: Part,
)
    requires
        sound(b, Part::Whole),
        sound(b, part),
    ensures
        #[trigger] sound(b.declare_all(), part),
{
    broadcast use {
        parts, collect_constants_is_sound, name_types_is_sound, build_types_is_sound,
        find_throwing_is_sound, declare_functions_is_sound, declare_initializers_is_sound,
        declare_finalizers_is_sound, declare_properties_is_sound, declare_derived_is_sound,
        find_displays_is_sound,
    };

}

broadcast proof fn fill_all_is_sound<'a>(
    b: LoweringView<'a>,
    part: Part,
)
    requires
        sound(b, Part::Whole),
        sound(b, part),
    ensures
        #[trigger] sound(b.fill_all(), part),
{
    broadcast use {
        parts, build_vtables_is_sound, adapt_throwing_virtuals_is_sound, lower_bodies_is_sound,
        write_derived_is_sound,
    };

}

proof fn finalizers_stay_within(held: Seq<(TyView, FuncId)>, ty: TyView, func: FuncId, count: nat)
    requires
        forall|i: int| 0 <= i < held.len() ==> (#[trigger] held[i]).1.0 < count,
        func.0 < count,
    ensures
        forall|i: int|
            0 <= i < finalizers_with(held, ty, func).len() ==> (#[trigger] finalizers_with(
                held,
                ty,
                func,
            )[i]).1.0 < count,
    decreases held.len(),
{
    if held.len() > 0 && held[0].0 != ty {
        finalizers_stay_within(held.skip(1), ty, func, count);
        assert forall|i: int| 0 <= i < finalizers_with(held, ty, func).len() implies (
        #[trigger] finalizers_with(held, ty, func)[i]).1.0 < count by {
            if i > 0 {
                assert(finalizers_with(held.skip(1), ty, func)[i - 1].1.0 < count);
            }
        }
    }
}

proof fn an_implementor_is_listed(held: Seq<ImplementationView>, ty: TyView, from: nat)
    ensures
        implementor_from(held, ty, from) matches Some(at) ==> at < held.len(),
    decreases held.len() - from,
{
    if from < held.len() {
        an_implementor_is_listed(held, ty, from + 1);
    }
}

/// Whether what is known of a program names only the first `count` functions.
pub open spec fn whole_within(b: LoweringView, count: nat) -> bool {
    program_within(b.program, count) && found_within(b, count)
}

broadcast proof fn put_interface_is_sound<'a>(
    b: LoweringView<'a>,
    id: TypeId,
    held: InterfaceView,
    part: Part,
)
    requires
        sound(b, Part::Whole),
        sound(b, Part::Tables(held.implementors)),
        sound(b, part),
    ensures
        #[trigger] sound(b.put_interface(id, held), part),
{
    reveal(sound);
    reveal(LoweringView::put_interface);
    let after = b.put_interface(id, held);
    if !(part is Whole) {
        still_sound(b, after, part);
    } else {
        assert forall|i: int| 0 <= i < after.program.types.len() implies (
        #[trigger] after.program.types[i]).tables_within(b.program.functions.len()) by {
            assert(b.program.types[i].tables_within(b.program.functions.len()));
        }
    }
}

proof fn an_interface_is_sound(b: LoweringView, id: TypeId)
    requires
        sound(b, Part::Whole),
    ensures
        b.interface_of(id) matches Some(held) ==> sound(b, Part::Tables(held.implementors)),
{
    reveal(sound);
    reveal(LoweringView::interface_of);
    if id.0 < b.program.types.len() {
        assert(b.program.types[id.0 as int].tables_within(b.program.functions.len()));
    }
}

broadcast proof fn mark_throwing_is_sound<'a>(
    b: LoweringView<'a>,
    id: TypeId,
    slot: nat,
    part: Part,
)
    requires
        sound(b, Part::Whole),
        sound(b, part),
    ensures
        #[trigger] sound(b.mark_throwing(id, slot), part),
{
    broadcast use put_interface_is_sound;

    reveal(LoweringView::mark_throwing);
    an_interface_is_sound(b, id);
}

broadcast proof fn push_implementor_is_sound<'a>(
    b: LoweringView<'a>,
    id: TypeId,
    implementation: ImplementationView,
    part: Part,
)
    requires
        sound(b, Part::Whole),
        sound(b, Part::Funcs(implementation.methods)),
        sound(b, part),
    ensures
        #[trigger] sound(b.push_implementor(id, implementation), part),
{
    broadcast use put_interface_is_sound;

    reveal(LoweringView::push_implementor);
    an_interface_is_sound(b, id);
    match b.interface_of(id) {
        Some(held) => {
            let more = held.implementors.push(implementation);
            assert(sound(b, Part::Tables(more))) by {
                reveal(sound);
                assert forall|i: int, k: int|
                    0 <= i < more.len() && 0 <= k < more[i].methods.len() implies (
                #[trigger] more[i].methods[k]).0 < b.program.functions.len() by {
                    if i < held.implementors.len() {
                        assert(more[i].methods[k] == held.implementors[i].methods[k]);
                    }
                }
            }
        },
        None => {},
    }
}

broadcast proof fn set_slot_is_sound<'a>(
    b: LoweringView<'a>,
    id: TypeId,
    ty: TyView,
    slot: nat,
    callee: FuncId,
    part: Part,
)
    requires
        sound(b, Part::Whole),
        sound(b, Part::Func(callee)),
        sound(b, part),
    ensures
        #[trigger] sound(b.set_slot(id, ty, slot, callee), part),
{
    broadcast use put_interface_is_sound;

    reveal(LoweringView::set_slot);
    an_interface_is_sound(b, id);
    match b.interface_of(id) {
        Some(held) => {
            an_implementor_is_listed(held.implementors, ty, 0);
            match implementor_from(held.implementors, ty, 0) {
                Some(at) => {
                    if slot < held.implementors[at as int].methods.len() {
                        let changed = held.implementors.update(
                            at as int,
                            ImplementationView {
                                methods: held.implementors[at as int].methods.update(
                                    slot as int,
                                    callee,
                                ),
                                ..held.implementors[at as int]
                            },
                        );
                        assert(sound(b, Part::Tables(changed))) by {
                            reveal(sound);
                            let count = b.program.functions.len();
                            assert forall|i: int, k: int|
                                0 <= i < changed.len() && 0 <= k
                                    < changed[i].methods.len() implies (
                            #[trigger] changed[i].methods[k]).0 < count by {
                                if i != at || k != slot {
                                    assert(changed[i].methods[k]
                                        == held.implementors[i].methods[k]);
                                }
                            }
                        }
                    }
                },
                None => {},
            }
        },
        None => {},
    }
}

proof fn members_are_sound(b: LoweringView, member: Seq<char>, count: nat)
    requires
        sound(b, Part::Whole),
    ensures
        members_within(b.members_of(member, count), b.program.functions.len()),
    decreases count,
{
    if count > 0 {
        members_are_sound(b, member, (count - 1) as nat);
        reveal(LoweringView::member_of);
        let owner = b.ids[count - 1].id;
        match b.entry_called(b.program.nominal(owner).name, 0) {
            Some(held) => {
                match first_signature_view(held.decl, member) {
                    Some(span) => {
                        a_callee_is_sound(b, span);
                    },
                    None => {},
                }
            },
            None => {},
        }
    }
}

broadcast proof fn find_displays_is_sound<'a>(b: LoweringView<'a>, part: Part)
    requires
        sound(b, Part::Whole),
        sound(b, part),
    ensures
        #[trigger] sound(b.find_displays(), part),
{
    members_are_sound(b, "display"@, b.ids.len());
    members_are_sound(b, "eq"@, b.ids.len());
    members_are_sound(b, "hash"@, b.ids.len());
    reveal(sound);
    reveal(LoweringView::find_displays);
    if !(part is Whole) {
        still_sound(b, b.find_displays(), part);
    }
}

/// Whether each of several functions names only what is its own, and only the
/// first `count` functions.
pub open spec fn all_within(held: Seq<(FuncId, FunctionView)>, count: nat) -> bool {
    forall|i: int| 0 <= i < held.len() ==> function_within((#[trigger] held[i]).1, count)
}

proof fn put_all_is_sound<'a>(
    b: LoweringView<'a>,
    built: Seq<(FuncId, FunctionView)>,
    count: nat,
    limit: nat,
)
    requires
        whole_within(b, limit),
        all_within(built, limit),
        count <= built.len(),
    ensures
        whole_within(b.put_all(built, count), limit),
        b.put_all(built, count).program.functions.len() == b.program.functions.len(),
    decreases count,
{
    reveal(LoweringView::put_all);
    reveal(LoweringView::put_function);
    if count > 0 {
        put_all_is_sound(b, built, (count - 1) as nat, limit);
        assert(function_within(built[count - 1].1, limit));
    }
}

proof fn add_all_is_sound<'a>(
    b: LoweringView<'a>,
    made: Seq<(FuncId, FunctionView)>,
    count: nat,
    limit: nat,
)
    requires
        whole_within(b, limit),
        all_within(made, limit),
        count <= made.len(),
    ensures
        whole_within(b.add_all(made, count), limit),
        b.program.functions.len() <= b.add_all(made, count).program.functions.len(),
        b.program.functions.len() + count <= id_limit() ==> b.add_all(
            made,
            count,
        ).program.functions.len() == b.program.functions.len() + count,
    decreases count,
{
    reveal(LoweringView::add_all);
    reveal(LoweringView::add_function);
    reveal(LoweringView::gap);
    if count > 0 {
        add_all_is_sound(b, made, (count - 1) as nat, limit);
        assert(function_within(made[count - 1].1, limit));
    }
}

proof fn a_lowered_body_is_sound<'a>(
    context: ContextView<'a>,
    pending: PendingView<'a>,
    next: u32,
)
    requires
        pending.id.0 < context.program.functions.len(),
        context_within(context),
        function_within(
            context.program.function(pending.id),
            context.program.functions.len(),
        ),
    ensures
        ({
            let body = body_lowered(context, pending, next);
            let limit = callable(context, body.next_function);
            function_within(body.function, limit) && all_within(body.made, limit)
        }),
{
    reveal(body_lowered);
    let within = ContextView { module: pending.module, ..context };
    let function = context.program.function(pending.id);
    let mutated = in_block_view(*pending.body, Seeking::Assigned);
    let b = BodyView::fresh(within, function, pending.throws, mutated, next);
    assert(function.calls_within(callable(within, next)));
    a_fresh_body_fits(within, function, pending.throws, mutated, next);
    a_lowered_block_names_what_is_there(b, pending.bindings, *pending.body, u32::MAX as nat);
    a_lowered_block_carries_on(
        b,
        pending.bindings,
        *pending.body,
        u32::MAX as nat,
    );
    let body = body_lowered(context, pending, next);
    assert(body.context == within) by {
        reveal(carries_on);
        reveal(BodyView::fresh);
    }
    assert(body_fits(body)) by {
        reveal(fits);
    }
    reveal(calls_fit);
    assert(callable(body.context, body.next_function) == callable(context, body.next_function));
    assert forall|i: int| 0 <= i < body.made.len() implies function_within(
        (#[trigger] body.made[i]).1,
        callable(context, body.next_function),
    ) by {}
}

proof fn all_within_more(held: Seq<(FuncId, FunctionView)>, fewer: nat, more: nat)
    requires
        all_within(held, fewer),
        fewer <= more,
    ensures
        all_within(held, more),
{
    assert forall|i: int| 0 <= i < held.len() implies function_within(
        (#[trigger] held[i]).1,
        more,
    ) by {
        assert(function_within(held[i].1, fewer));
    }
}

proof fn lowered_bodies_are_sound<'a>(
    context: ContextView<'a>,
    pending: Seq<PendingView<'a>>,
    next: u32,
    count: nat,
)
    requires
        context_within(context),
        forall|i: int|
            0 <= i < context.program.functions.len() ==> function_within(
                #[trigger] context.program.functions[i],
                context.program.functions.len(),
            ),
        count <= pending.len(),
    ensures
        ({
            let bodies = bodies_lowered(context, pending, next, count);
            let limit = callable(context, bodies.next);
            all_within(bodies.built, limit) && all_within(bodies.made, limit)
        }),
    decreases count,
{
    if count > 0 {
        lowered_bodies_are_sound(context, pending, next, (count - 1) as nat);
        let earlier = bodies_lowered(context, pending, next, (count - 1) as nat);
        let held = pending[count - 1];
        if held.id.0 < context.program.functions.len() {
            a_lowered_body_is_sound(context, held, earlier.next);
            closures_take_the_next_ids(context, pending, next, count);
            closures_take_the_next_ids(context, pending, next, (count - 1) as nat);
            let body = body_lowered(context, held, earlier.next);
            let fewer = callable(context, earlier.next);
            let more = callable(context, body.next_function);
            all_within_more(earlier.built, fewer, more);
            all_within_more(earlier.made, fewer, more);
        }
    }
}

broadcast proof fn lower_bodies_is_sound<'a>(b: LoweringView<'a>, part: Part)
    requires
        sound(b, Part::Whole),
        sound(b, part),
    ensures
        #[trigger] sound(b.lower_bodies(), part),
{
    reveal(sound);
    reveal(LoweringView::lower_bodies);
    reveal(LoweringView::context);
    reveal(LoweringView::more_gaps);
    let count = b.program.functions.len();
    let next = index_id_view(count);
    let context = b.context(ModuleId(0));
    lowered_bodies_are_sound(context, b.bodies, next, b.bodies.len());
    closures_take_the_next_ids(context, b.bodies, next, b.bodies.len());
    let bodies = bodies_lowered(context, b.bodies, next, b.bodies.len());
    let limit = callable(context, bodies.next);
    assert(whole_within(b, limit));
    put_all_is_sound(b, bodies.built, bodies.built.len(), limit);
    let put = b.put_all(bodies.built, bodies.built.len()).more_gaps(bodies.gaps);
    assert(whole_within(put, limit));
    add_all_is_sound(put, bodies.made, bodies.made.len(), limit);
    let after = b.lower_bodies();
    assert(limit <= after.program.functions.len());
    assert(whole_within(after, after.program.functions.len()));
    if !(part is Whole) {
        still_sound(b, after, part);
    }
}

broadcast proof fn derive_body_is_sound<'a>(
    b: LoweringView<'a>,
    id: FuncId,
    member: Seq<char>,
    owner: TypeId,
    span: Span,
    part: Part,
)
    requires
        sound(b, Part::Whole),
        sound(b, part),
    ensures
        #[trigger] sound(b.derive_body(id, member, owner, span), part),
{
    broadcast use {more_gaps_is_sound, put_function_is_sound};

    reveal(LoweringView::derive_body);
    if id.0 < b.program.functions.len() {
        let function = b.program.function(id);
        let context = b.context(ModuleId(0));
        let fresh = BodyView::fresh(context, function, false, Seq::empty(), 0);
        assert(function_within(function, b.program.functions.len()) && context_within(context)
            && context.program == b.program) by {
            reveal(sound);
            reveal(LoweringView::context);
        }
        a_fresh_body_fits(context, function, false, Seq::empty(), 0);
        a_derived_member_names_what_is_there(fresh, member, owner, span);
        a_derived_member_carries_on(fresh, member, owner, span);
        a_derived_member_builds_no_closure(fresh, member, owner, span);
        let body = fresh.derive(member, owner, span).0;
        assert(body_fits(body)) by {
            reveal(fits);
        }
        let gapped = b.more_gaps(body.gaps);
        assert(sound(gapped, Part::Function(body.function))) by {
            reveal(sound);
            reveal(calls_fit);
            reveal(carries_on);
            reveal(BodyView::fresh);
            reveal(LoweringView::more_gaps);
        }
    }
}

/// Whether nothing was written into a function: it has no value, and names none.
pub open spec fn is_blank(function: FunctionView) -> bool {
    forall|i: int|
        0 <= i < function.blocks.len() ==> {
            &&& (#[trigger] function.blocks[i]).params.len() == 0
            &&& function.blocks[i].insts.len() == 0
            &&& function.blocks[i].term matches Some(term) ==> term is Trap
        }
}

/// Everything a program is lowered into names what is there. Each instruction
/// names values and slots of its function and functions of the program, and each
/// ending goes to blocks of its function. The method tables, the initializers, the
/// finalizers and the entry name functions of the program. Where every function has
/// a value or has nothing written into it, each is well formed.
pub proof fn a_lowered_program_names_what_is_there(
    graph: &Graph,
    table: &Table,
    facts: &Facts,
    mode: CompilationMode,
)
    ensures
        ({
            let program = lowered_view(graph, table, facts, mode).program;
            &&& program_within(program, program.functions.len())
            &&& program.calls_well_formed()
            &&& program.tables_well_formed()
            &&& (forall|i: int|
                0 <= i < program.functions.len() ==> (#[trigger] program.functions[i]).values.len()
                    > 0 || is_blank(program.functions[i])) ==> program.functions_well_formed()
        }),
{
    let start = LoweringView::start(graph, table, facts, mode);
    assert(sound(start, Part::Whole)) by {
        reveal(sound);
    }
    declare_all_is_sound(start, Part::Whole);
    fill_all_is_sound(start.declare_all(), Part::Whole);
    reveal(sound);
    let program = lowered_view(graph, table, facts, mode).program;
    assert forall|i: int| 0 <= i < program.functions.len() implies (
    #[trigger] program.functions[i]).calls_within(program.functions.len()) by {
        assert(function_within(program.functions[i], program.functions.len()));
    }
    if forall|i: int|
        0 <= i < program.functions.len() ==> (#[trigger] program.functions[i]).values.len() > 0
            || is_blank(program.functions[i]) {
        assert forall|i: int| 0 <= i < program.functions.len() implies (
        #[trigger] program.functions[i]).well_formed() by {
            assert(function_within(program.functions[i], program.functions.len()));
        }
    }
}

} // verus!
