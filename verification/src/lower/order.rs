//! That what is given an id stands where its id says.

use vstd::prelude::*;

use crate::ast::Expr;
use crate::inst::MethodId;
use crate::program::{
    id_limit, EnumView, FuncId, FunctionView, InterfaceView, NominalView, ShapeView, StructView,
};
use crate::sema::{
    Decl, Entry, EnumType, InterfaceType, ModuleId, ParamType, StructType, Type, VariantType,
};
use crate::span::Span;
use crate::text::names;
use crate::ty::TypeId;

use super::bodies::{bodies_lowered, body_lowered};
use super::body::kept::carries_on;
use super::body::kept::a_lowered_block_carries_on;
use super::body::kinds::index_id_view;
use super::body::{BodyView, ContextView, FieldDefault};
use super::declared::{flat_view, Named};
use super::names::{in_block_view, Seeking};
use super::state::{is_type_view, LoweringView, PendingView};

verus! {

/// Whether nothing but what is found out beside the types has changed.
#[verifier::opaque]
pub open spec fn beside(before: LoweringView, after: LoweringView) -> bool {
    &&& after.graph == before.graph
    &&& after.table == before.table
    &&& after.ids == before.ids
    &&& after.program == before.program
}

broadcast proof fn gap_beside<'a>(
    origin: LoweringView<'a>,
    b: LoweringView<'a>,
    span: Span,
    what: Seq<char>,
)
    requires
        beside(origin, b),
    ensures
        #[trigger] beside(origin, b.gap(span, what)),
{
    reveal(beside);
    reveal(LoweringView::gap);
}

broadcast proof fn convert_beside<'a>(
    origin: LoweringView<'a>,
    b: LoweringView<'a>,
    ty: Type,
    span: Span,
)
    requires
        beside(origin, b),
    ensures
        #[trigger] beside(origin, b.convert(ty, span).0),
{
    broadcast use gap_beside;

    reveal(LoweringView::convert);
}

broadcast proof fn put_default_beside<'a>(
    origin: LoweringView<'a>,
    b: LoweringView<'a>,
    held: FieldDefault<'a>,
)
    requires
        beside(origin, b),
    ensures
        #[trigger] beside(origin, b.put_default(held)),
{
    reveal(beside);
    reveal(LoweringView::put_default);
}

broadcast proof fn put_virtual_beside<'a>(
    origin: LoweringView<'a>,
    b: LoweringView<'a>,
    span: Span,
    method: MethodId,
)
    requires
        beside(origin, b),
    ensures
        #[trigger] beside(origin, b.put_virtual(span, method)),
{
    reveal(beside);
    reveal(LoweringView::put_virtual);
}

broadcast proof fn keep_defaults_beside<'a>(
    origin: LoweringView<'a>,
    b: LoweringView<'a>,
    id: TypeId,
    defaults: Seq<Option<&'a Expr>>,
    count: nat,
)
    requires
        beside(origin, b),
    ensures
        #[trigger] beside(origin, b.keep_defaults(id, defaults, count)),
    decreases count,
{
    broadcast use put_default_beside;

    reveal(LoweringView::keep_defaults);
    if count > 0 {
        keep_defaults_beside(origin, b, id, defaults, (count - 1) as nat);
    }
}

broadcast proof fn fields_beside<'a>(
    origin: LoweringView<'a>,
    b: LoweringView<'a>,
    declared: Seq<(String, Type)>,
    span: Span,
    count: nat,
)
    requires
        beside(origin, b),
    ensures
        #[trigger] beside(origin, b.fields(declared, span, count).0),
    decreases count,
{
    broadcast use convert_beside;

    reveal(LoweringView::fields);
    if count > 0 {
        fields_beside(origin, b, declared, span, (count - 1) as nat);
    }
}

broadcast proof fn numbered_fields_beside<'a>(
    origin: LoweringView<'a>,
    b: LoweringView<'a>,
    types: Seq<Type>,
    span: Span,
    count: nat,
)
    requires
        beside(origin, b),
    ensures
        #[trigger] beside(origin, b.numbered_fields(types, span, count).0),
    decreases count,
{
    broadcast use convert_beside;

    reveal(LoweringView::numbered_fields);
    if count > 0 {
        numbered_fields_beside(origin, b, types, span, (count - 1) as nat);
    }
}

broadcast proof fn variants_beside<'a>(
    origin: LoweringView<'a>,
    b: LoweringView<'a>,
    order: Seq<String>,
    declared: Seq<(String, VariantType)>,
    span: Span,
    count: nat,
)
    requires
        beside(origin, b),
    ensures
        #[trigger] beside(origin, b.variants(order, declared, span, count).0),
    decreases count,
{
    broadcast use {fields_beside, numbered_fields_beside};

    reveal(LoweringView::variants);
    if count > 0 {
        variants_beside(origin, b, order, declared, span, (count - 1) as nat);
    }
}

broadcast proof fn param_types_beside<'a>(
    origin: LoweringView<'a>,
    b: LoweringView<'a>,
    params: Seq<ParamType>,
    span: Span,
    count: nat,
)
    requires
        beside(origin, b),
    ensures
        #[trigger] beside(origin, b.param_types(params, span, count).0),
    decreases count,
{
    broadcast use convert_beside;

    reveal(LoweringView::param_types);
    if count > 0 {
        param_types_beside(origin, b, params, span, (count - 1) as nat);
    }
}

broadcast proof fn methods_beside<'a>(
    origin: LoweringView<'a>,
    b: LoweringView<'a>,
    id: TypeId,
    all: Seq<Named<'a>>,
    span: Span,
    count: nat,
)
    requires
        beside(origin, b),
    ensures
        #[trigger] beside(origin, b.methods(id, all, span, count).0),
    decreases count,
{
    broadcast use {convert_beside, param_types_beside, put_virtual_beside};

    reveal(LoweringView::methods);
    if count > 0 {
        methods_beside(origin, b, id, all, span, (count - 1) as nat);
    }
}

/// Whether one type was added, called what `name` is in `module`.
pub open spec fn one_more_type(
    before: LoweringView,
    after: LoweringView,
    module: ModuleId,
    name: Seq<char>,
) -> bool {
    &&& after.graph == before.graph
    &&& after.table == before.table
    &&& after.ids == before.ids
    &&& after.program.types.len() == before.program.types.len() + 1
    &&& before.program.types == after.program.types.drop_last()
    &&& after.program.types.last().name == before.qualify(module, name)
}

proof fn adding(
    origin: LoweringView,
    b: LoweringView,
    nominal: NominalView,
    module: ModuleId,
    name: Seq<char>,
)
    requires
        beside(origin, b),
        nominal.name == b.qualify(module, name),
        origin.program.types.len() < id_limit(),
    ensures
        one_more_type(origin, b.add_type(nominal), module, name),
{
    reveal(beside);
    reveal(LoweringView::add_type);
    reveal(LoweringView::qualify);
    assert(b.add_type(nominal).program.types.drop_last() =~= origin.program.types);
}

proof fn structure_adds(b: LoweringView, entry: Entry, held: StructType)
    requires
        b.program.types.len() < id_limit(),
    ensures
        one_more_type(b, b.structure(entry, held), entry.module, entry.name@),
{
    broadcast use {fields_beside, keep_defaults_beside};

    reveal(LoweringView::structure);
    assert(beside(b, b)) by {
        reveal(beside);
    }
    let span = b.declaration_span(entry.module, entry.name@);
    let id = b.next_type();
    let (after, fields) = b.fields(held.fields@, span, held.fields@.len());
    let defaults = after.defaults_of(entry.module, entry.name@);
    let after = after.keep_defaults(id, defaults, defaults.len());
    let nominal = NominalView {
        name: after.qualify(entry.module, entry.name@),
        type_params: names(held.type_params@),
        shape: ShapeView::Struct(
            StructView {
                fields,
                reference: held.reference,
                repr_c: after.repr_c(entry.module, entry.name@),
            },
        ),
        span,
    };
    assert(beside(b, after));
    adding(b, after, nominal, entry.module, entry.name@);
}

proof fn enumeration_adds(b: LoweringView, entry: Entry, held: EnumType)
    requires
        b.program.types.len() < id_limit(),
    ensures
        one_more_type(b, b.enumeration(entry, held), entry.module, entry.name@),
{
    broadcast use variants_beside;

    reveal(LoweringView::enumeration);
    assert(beside(b, b)) by {
        reveal(beside);
    }
    let span = b.declaration_span(entry.module, entry.name@);
    let (after, variants) = match b.enum_declared(entry.module, entry.name@) {
        Some(item) => b.variants(
            item.variants@,
            held.variants@,
            span,
            item.variants@.len(),
        ),
        None => (b, Seq::empty()),
    };
    let nominal = NominalView {
        name: after.qualify(entry.module, entry.name@),
        type_params: names(held.type_params@),
        shape: ShapeView::Enum(EnumView { variants }),
        span,
    };
    assert(beside(b, after));
    adding(b, after, nominal, entry.module, entry.name@);
}

proof fn interface_adds(b: LoweringView, entry: Entry, held: InterfaceType)
    requires
        b.program.types.len() < id_limit(),
    ensures
        one_more_type(b, b.interface(entry, held), entry.module, entry.name@),
{
    broadcast use methods_beside;

    reveal(LoweringView::interface);
    assert(beside(b, b)) by {
        reveal(beside);
    }
    let span = b.declaration_span(entry.module, entry.name@);
    let id = b.next_type();
    let all = flat_view(held.methods@);
    let (after, methods) = b.methods(id, all, span, all.len());
    let nominal = NominalView {
        name: after.qualify(entry.module, entry.name@),
        type_params: names(held.type_params@),
        shape: ShapeView::Interface(
            InterfaceView { methods, implementors: Seq::empty() },
        ),
        span,
    };
    assert(beside(b, after));
    adding(b, after, nominal, entry.module, entry.name@);
}

/// The types declared among the first `count` entries, in order.
pub open spec fn types_among(entries: Seq<Entry>, count: nat) -> Seq<Entry>
    decreases count,
{
    if count == 0 {
        Seq::empty()
    } else {
        let earlier = types_among(entries, (count - 1) as nat);
        if is_type_view(entries[count - 1].decl) {
            earlier.push(entries[count - 1])
        } else {
            earlier
        }
    }
}

proof fn few_types(entries: Seq<Entry>, count: nat)
    ensures
        types_among(entries, count).len() <= count,
    decreases count,
{
    if count > 0 {
        few_types(entries, (count - 1) as nat);
    }
}

proof fn naming(b: LoweringView, entries: Seq<Entry>, count: nat)
    requires
        b.ids.len() == 0,
        count <= id_limit(),
    ensures
        ({
            let after = b.name_types(entries, count);
            let types = types_among(entries, count);
            &&& after.graph == b.graph
            &&& after.program == b.program
            &&& after.ids.len() == types.len()
            &&& forall|i: int|
                0 <= i < types.len() ==> (#[trigger] after.ids[i]).id == TypeId(i as u32)
                    && after.ids[i].module == types[i].module && after.ids[i].name@
                    == types[i].name@
        }),
    decreases count,
{
    reveal(LoweringView::name_types);
    reveal(LoweringView::name_type);
    if count > 0 {
        naming(b, entries, (count - 1) as nat);
        few_types(entries, (count - 1) as nat);
    }
}

proof fn building(b: LoweringView, entries: Seq<Entry>, count: nat)
    requires
        b.program.types.len() == 0,
        count <= id_limit(),
    ensures
        ({
            let after = b.build_types(entries, count);
            let types = types_among(entries, count);
            &&& after.graph == b.graph
            &&& after.ids == b.ids
            &&& after.program.types.len() == types.len()
            &&& forall|i: int|
                0 <= i < types.len() ==> (#[trigger] after.program.types[i]).name == b.qualify(
                    types[i].module,
                    types[i].name@,
                )
        }),
    decreases count,
{
    reveal(LoweringView::build_types);
    if count > 0 {
        building(b, entries, (count - 1) as nat);
        few_types(entries, (count - 1) as nat);
        let earlier = b.build_types(entries, (count - 1) as nat);
        let entry = entries[count - 1];
        assert(earlier.qualify(entry.module, entry.name@) == b.qualify(entry.module, entry.name@))
            by {
            reveal(LoweringView::qualify);
        }
        match entry.decl {
            Decl::Struct(held) => {
                structure_adds(earlier, entry, held);
            },
            Decl::Enum(held) => {
                enumeration_adds(earlier, entry, held);
            },
            Decl::Interface(held) => {
                interface_adds(earlier, entry, held);
            },
            _ => {},
        }
        let after = b.build_types(entries, count);
        let types = types_among(entries, count);
        assert forall|i: int| 0 <= i < types.len() implies (
        #[trigger] after.program.types[i]).name == b.qualify(types[i].module, types[i].name@) by {
            if i < earlier.program.types.len() {
                assert(after.program.types[i] == earlier.program.types[i]);
            }
        }
    }
}

/// Types are built in the order they were named: the type that was given an id
/// stands at that id, under its name in the whole program.
pub proof fn types_stand_where_they_were_named(b: LoweringView, entries: Seq<Entry>)
    requires
        b.ids.len() == 0,
        b.program.types.len() == 0,
        entries.len() <= id_limit(),
    ensures
        ({
            let after = b.name_types(entries, entries.len()).build_types(entries, entries.len());
            &&& after.program.types.len() == after.ids.len()
            &&& forall|i: int|
                0 <= i < after.ids.len() ==> (#[trigger] after.ids[i]).id == TypeId(i as u32)
                    && after.program.nominal(after.ids[i].id).name == after.qualify(
                    after.ids[i].module,
                    after.ids[i].name@,
                )
        }),
{
    naming(b, entries, entries.len());
    let named = b.name_types(entries, entries.len());
    building(named, entries, entries.len());
    few_types(entries, entries.len());
    let after = named.build_types(entries, entries.len());
    reveal(LoweringView::qualify);
    let types = types_among(entries, entries.len());
    assert forall|i: int| 0 <= i < after.ids.len() implies (#[trigger] after.ids[i]).id == TypeId(
        i as u32,
    ) && after.program.nominal(after.ids[i].id).name == after.qualify(
        after.ids[i].module,
        after.ids[i].name@,
    ) by {
        assert(named.ids[i].id == TypeId(i as u32));
        assert(after.program.types[i].name == named.qualify(types[i].module, types[i].name@));
    }
}

/// The closures built while several bodies are lowered took the ids from `next`
/// on, in the order they are listed.
pub proof fn closures_take_the_next_ids<'a>(
    context: ContextView<'a>,
    pending: Seq<PendingView<'a>>,
    next: u32,
    count: nat,
)
    ensures
        ({
            let bodies = bodies_lowered(context, pending, next, count);
            &&& bodies.next == next + bodies.made.len()
            &&& forall|i: int|
                0 <= i < bodies.made.len() ==> (#[trigger] bodies.made[i]).0 == FuncId(
                    (next + i) as u32,
                )
        }),
    decreases count,
{
    if count > 0 {
        closures_take_the_next_ids(context, pending, next, (count - 1) as nat);
        let earlier = bodies_lowered(context, pending, next, (count - 1) as nat);
        let held = pending[count - 1];
        if held.id.0 < context.program.functions.len() {
            let fresh = BodyView::fresh(
                ContextView { module: held.module, ..context },
                context.program.function(held.id),
                held.throws,
                in_block_view(*held.body, Seeking::Assigned),
                earlier.next,
            );
            a_lowered_block_carries_on(fresh, held.bindings, *held.body, u32::MAX as nat);
            let body = body_lowered(context, held, earlier.next);
            let bodies = bodies_lowered(context, pending, next, count);
            reveal(body_lowered);
            reveal(carries_on);
            reveal(BodyView::fresh);
            assert forall|i: int| 0 <= i < bodies.made.len() implies (
            #[trigger] bodies.made[i]).0 == FuncId((next + i) as u32) by {
                if i < earlier.made.len() {
                    assert(bodies.made[i] == earlier.made[i]);
                } else {
                    assert(bodies.made[i] == body.made[i - earlier.made.len()]);
                }
            }
        }
    }
}

proof fn putting_keeps_the_count(
    b: LoweringView,
    built: Seq<(FuncId, FunctionView)>,
    count: nat,
)
    ensures
        b.put_all(built, count).program.functions.len() == b.program.functions.len(),
    decreases count,
{
    reveal(LoweringView::put_all);
    reveal(LoweringView::put_function);
    if count > 0 {
        putting_keeps_the_count(b, built, (count - 1) as nat);
    }
}

proof fn adding_adds(b: LoweringView, made: Seq<(FuncId, FunctionView)>, count: nat)
    requires
        count <= made.len(),
        b.program.functions.len() + count <= id_limit(),
    ensures
        b.add_all(made, count).program.functions.len() == b.program.functions.len() + count,
        forall|i: int|
            0 <= i < count ==> b.add_all(made, count).program.functions[b.program.functions.len()
                + i] == (#[trigger] made[i]).1,
    decreases count,
{
    reveal(LoweringView::add_all);
    reveal(LoweringView::add_function);
    if count > 0 {
        adding_adds(b, made, (count - 1) as nat);
    }
}

/// Closures are added in the order they took ids: each stands at the id it took
/// while the body around it was lowered.
pub proof fn closures_stand_where_they_were_named<'a>(b: LoweringView<'a>)
    requires
        b.program.functions.len() + bodies_lowered(
            b.context(ModuleId(0)),
            b.bodies,
            index_id_view(b.program.functions.len()),
            b.bodies.len(),
        ).made.len() <= id_limit(),
        b.program.functions.len() < id_limit(),
    ensures
        ({
            let bodies = bodies_lowered(
                b.context(ModuleId(0)),
                b.bodies,
                index_id_view(b.program.functions.len()),
                b.bodies.len(),
            );
            forall|i: int|
                0 <= i < bodies.made.len() ==> b.lower_bodies().program.function(
                    (#[trigger] bodies.made[i]).0,
                ) == bodies.made[i].1
        }),
{
    let next = index_id_view(b.program.functions.len());
    let bodies = bodies_lowered(b.context(ModuleId(0)), b.bodies, next, b.bodies.len());
    closures_take_the_next_ids(b.context(ModuleId(0)), b.bodies, next, b.bodies.len());
    putting_keeps_the_count(b, bodies.built, bodies.built.len());
    reveal(LoweringView::lower_bodies);
    reveal(LoweringView::more_gaps);
    let put = b.put_all(bodies.built, bodies.built.len()).more_gaps(bodies.gaps);
    adding_adds(put, bodies.made, bodies.made.len());
    assert forall|i: int| 0 <= i < bodies.made.len() implies b.lower_bodies().program.function(
        (#[trigger] bodies.made[i]).0,
    ) == bodies.made[i].1 by {
        assert(bodies.made[i].0 == FuncId((next + i) as u32));
    }
}

} // verus!
