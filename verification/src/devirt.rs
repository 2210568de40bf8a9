//! Devirtualization of single-implementation interface calls.

use vstd::prelude::*;

use crate::inst::{
    push_values, within_grows, Inst, InstKind, InstKindView, InstView, MethodId, Value,
};
use crate::program::{
    id_limit, views, BlockId, BlockView, FuncId, Function, FunctionView, Implementation,
    ImplementationView, Program, ProgramView, Shape, ShapeView,
};
use crate::text::{names, position, position_is_first, position_of};
use crate::ty::{
    any_cell_mentions, any_field_cell_mentions, any_field_nests, any_nests,
    filled_types_never_nest, maybe_ty, named_tys, substitute_all, substitute_each,
    substitute_fields, tys, unmentioned_stay, Ty, TyView, TypeId,
};

verus! {

/// The one implementation of the interface `id`, where there is exactly one.
pub open spec fn single(program: ProgramView, id: TypeId) -> Option<ImplementationView> {
    if id.0 < program.types.len() {
        match program.nominal(id).shape {
            ShapeView::Interface(interface) => if interface.implementors.len() == 1 {
                Some(interface.implementors[0])
            } else {
                None
            },
            _ => None,
        }
    } else {
        None
    }
}

/// What each parameter of `params` has to be for `pattern` to become
/// `concrete`, given what is already known. `None` where nothing will do.
pub open spec fn inferred(
    params: Seq<Seq<char>>,
    pattern: TyView,
    concrete: TyView,
    known: Seq<Option<TyView>>,
) -> Option<Seq<Option<TyView>>>
    decreases pattern, 0nat,
{
    match (pattern, concrete) {
        (TyView::Parameter(name), _) => match position(params, name) {
            Some(index) => match known[index] {
                Some(held) => known_if(known, held == concrete),
                None => Some(known.update(index, Some(concrete))),
            },
            None => known_if(known, pattern == concrete),
        },
        (TyView::Named { id: left, args: a }, TyView::Named { id: right, args: b }) => if left
            == right {
            inferred_all(params, a, b, known)
        } else {
            None
        },
        (TyView::Builtin { kind: left, args: a }, TyView::Builtin { kind: right, args: b }) => if left
            == right {
            inferred_all(params, a, b, known)
        } else {
            None
        },
        (TyView::Tuple(a), TyView::Tuple(b)) => inferred_all(params, a, b, known),
        (TyView::Union(a), TyView::Union(b)) => inferred_all(params, a, b, known),
        (TyView::Record(a), TyView::Record(b)) => if a.len() == b.len() {
            inferred_fields(params, a, b, a.len(), known)
        } else {
            None
        },
        (TyView::Optional(a), TyView::Optional(b)) => inferred(params, *a, *b, known),
        (TyView::Array(a, m), TyView::Array(b, n)) => if m == n {
            inferred(params, *a, *b, known)
        } else {
            None
        },
        (
            TyView::Pointer { mutable: left_mutable, target: left },
            TyView::Pointer { mutable: right_mutable, target: right },
        ) => if left_mutable == right_mutable {
            inferred(params, *left, *right, known)
        } else {
            None
        },
        (
            TyView::Function { asynchronous: m, params: a, result: left },
            TyView::Function { asynchronous: n, params: b, result: right },
        ) => if m == n {
            match inferred_all(params, a, b, known) {
                Some(held) => inferred(params, *left, *right, held),
                None => None,
            }
        } else {
            None
        },
        _ => known_if(known, pattern == concrete),
    }
}

/// What was known, where `same`.
pub open spec fn known_if(known: Seq<Option<TyView>>, same: bool) -> Option<Seq<Option<TyView>>> {
    if same {
        Some(known)
    } else {
        None
    }
}

/// What the parameters have to be for each pattern to become the type at its
/// place.
pub open spec fn inferred_all(
    params: Seq<Seq<char>>,
    patterns: Seq<TyView>,
    concrete: Seq<TyView>,
    known: Seq<Option<TyView>>,
) -> Option<Seq<Option<TyView>>>
    decreases patterns, patterns.len() + 1,
{
    if patterns.len() == concrete.len() {
        inferred_first(params, patterns, concrete, patterns.len(), known)
    } else {
        None
    }
}

/// What the parameters have to be for each of the first `count` patterns to
/// become the type at its place.
pub open spec fn inferred_first(
    params: Seq<Seq<char>>,
    patterns: Seq<TyView>,
    concrete: Seq<TyView>,
    count: nat,
    known: Seq<Option<TyView>>,
) -> Option<Seq<Option<TyView>>>
    decreases patterns, count,
{
    if count == 0 || count > patterns.len() {
        Some(known)
    } else {
        match inferred_first(params, patterns, concrete, (count - 1) as nat, known) {
            Some(held) => inferred(params, patterns[count - 1], concrete[count - 1], held),
            None => None,
        }
    }
}

/// What the parameters have to be for each of the first `count` fields to
/// become the field at its place.
pub open spec fn inferred_fields(
    params: Seq<Seq<char>>,
    patterns: Seq<(Seq<char>, TyView)>,
    concrete: Seq<(Seq<char>, TyView)>,
    count: nat,
    known: Seq<Option<TyView>>,
) -> Option<Seq<Option<TyView>>>
    decreases patterns, count,
{
    if count == 0 || count > patterns.len() {
        Some(known)
    } else {
        match inferred_fields(params, patterns, concrete, (count - 1) as nat, known) {
            Some(held) => if patterns[count - 1].0 == concrete[count - 1].0 {
                inferred(params, patterns[count - 1].1, concrete[count - 1].1, held)
            } else {
                None
            },
            None => None,
        }
    }
}

/// Nothing known of any of `count` parameters.
pub open spec fn nothing_known(count: nat) -> Seq<Option<TyView>> {
    Seq::new(count, |i: int| None)
}

/// Whether every parameter is known.
pub open spec fn all_known(known: Seq<Option<TyView>>) -> bool {
    forall|i: int| 0 <= i < known.len() ==> (#[trigger] known[i]) is Some
}

/// What the parameters are, where every one is known.
pub open spec fn known_types(known: Seq<Option<TyView>>) -> Seq<TyView> {
    Seq::new(known.len(), |i: int| known[i]->Some_0)
}

/// The type arguments with which `callee` is the implementation of `method`
/// for a receiver of the type given, and the type it then takes as receiver.
pub open spec fn implementation_arguments(
    program: ProgramView,
    receiver: TyView,
    method: MethodId,
    callee: FuncId,
) -> Option<(Seq<TyView>, TyView)> {
    match receiver {
        TyView::Named { id, args } => if id == method.interface {
            let nominal = program.nominal(method.interface);
            match nominal.shape {
                ShapeView::Interface(interface) => if method.slot < interface.methods.len() {
                    let required = interface.methods[method.slot as int];
                    let params = substitute_all(required.params, nominal.type_params, args);
                    let result = required.result.substitute(nominal.type_params, args);
                    let function = program.function(callee);
                    if function.params.len() == params.len() + 1 {
                        match signature_inferred(
                            function.type_params,
                            function.params.skip(1),
                            function.result,
                            params,
                            result,
                        ) {
                            Some(held) => Some(
                                (held, function.params[0].substitute(function.type_params, held)),
                            ),
                            None => None,
                        }
                    } else {
                        None
                    }
                } else {
                    None
                },
                _ => None,
            }
        } else {
            None
        },
        _ => None,
    }
}

/// The type arguments with which parameters and a result become those given,
/// where that settles every one.
pub open spec fn signature_inferred(
    type_params: Seq<Seq<char>>,
    params: Seq<TyView>,
    result: TyView,
    wanted_params: Seq<TyView>,
    wanted_result: TyView,
) -> Option<Seq<TyView>> {
    match inferred_first(
        type_params,
        params,
        wanted_params,
        params.len(),
        nothing_known(type_params.len()),
    ) {
        Some(held) => match inferred(type_params, result, wanted_result, held) {
            Some(found) => if all_known(found) {
                Some(known_types(found))
            } else {
                None
            },
            None => None,
        },
        None => None,
    }
}

/// What a call through an interface reaches, where only one thing can be
/// reached: the function, its type arguments, and the type of its receiver.
pub open spec fn resolved(
    program: ProgramView,
    function: FunctionView,
    kind: InstKindView,
) -> Option<(FuncId, Seq<TyView>, TyView)> {
    match kind {
        InstKindView::CallVirtual { method, receiver, .. } => match single(
            program,
            method.interface,
        ) {
            Some(held) => if method.slot < held.methods.len() {
                let callee = held.methods[method.slot as int];
                match implementation_arguments(
                    program,
                    function.type_of(receiver),
                    method,
                    callee,
                ) {
                    Some((type_args, ty)) => Some((callee, type_args, ty)),
                    None => None,
                }
            } else {
                None
            },
            None => None,
        },
        _ => None,
    }
}

/// The types of the receivers that the calls among `insts` open, in order.
pub open spec fn opened(
    program: ProgramView,
    function: FunctionView,
    insts: Seq<InstView>,
) -> Seq<TyView>
    decreases insts.len(),
{
    if insts.len() == 0 {
        Seq::empty()
    } else {
        let before = opened(program, function, insts.drop_last());
        match resolved(program, function, insts.last().kind) {
            Some((_, _, ty)) => before.push(ty),
            None => before,
        }
    }
}

/// A call through an interface as a direct one: its receiver opened into
/// `inside`, and then passed first.
pub open spec fn direct_call(
    inst: InstView,
    inside: Value,
    callee: FuncId,
    type_args: Seq<TyView>,
) -> Seq<InstView> {
    match inst.kind {
        InstKindView::CallVirtual { receiver, args, .. } => seq![
            InstView {
                result: Some(inside),
                kind: InstKindView::DynValue { value: receiver },
                span: inst.span,
            },
            InstView {
                result: inst.result,
                kind: InstKindView::Call { callee, type_args, args: seq![inside] + args },
                span: inst.span,
            },
        ],
        _ => seq![inst],
    }
}

/// The instructions with each call that can be resolved made direct. The
/// receivers they open are the values from `next` on.
pub open spec fn direct(
    program: ProgramView,
    function: FunctionView,
    insts: Seq<InstView>,
    next: nat,
) -> Seq<InstView>
    decreases insts.len(),
{
    if insts.len() == 0 {
        Seq::empty()
    } else {
        let shorter = insts.drop_last();
        let before = direct(program, function, shorter, next);
        match resolved(program, function, insts.last().kind) {
            Some((callee, type_args, _)) => before + direct_call(
                insts.last(),
                Value((next + opened(program, function, shorter).len()) as u32),
                callee,
                type_args,
            ),
            None => before.push(insts.last()),
        }
    }
}

/// The function with the calls of its first `count` blocks made direct where
/// they can be.
pub open spec fn devirtualized_blocks(
    program: ProgramView,
    function: FunctionView,
    count: nat,
) -> FunctionView
    decreases count,
{
    if count == 0 {
        function
    } else {
        let before = devirtualized_blocks(program, function, (count - 1) as nat);
        let block = function.blocks[count - 1];
        FunctionView {
            values: before.values + opened(program, function, block.insts),
            blocks: before.blocks.update(
                count - 1,
                BlockView {
                    insts: direct(program, function, block.insts, before.values.len()),
                    ..block
                },
            ),
            ..before
        }
    }
}

/// The function with every call made direct that can be.
pub open spec fn devirtualized(program: ProgramView, function: FunctionView) -> FunctionView {
    devirtualized_blocks(program, function, function.blocks.len())
}

/// Whether an instruction is a call through the interface `id`.
pub open spec fn calls_through(kind: InstKindView, id: TypeId) -> bool {
    kind matches InstKindView::CallVirtual { method, .. } && method.interface == id
}

/// Whether some call of the functions goes through the interface `id`.
pub open spec fn still_called(functions: Seq<FunctionView>, id: TypeId) -> bool {
    exists|f: int, b: int, i: int|
        0 <= f < functions.len() && 0 <= b < functions[f].blocks.len() && 0 <= i
            < functions[f].blocks[b].insts.len() && calls_through(
            #[trigger] functions[f].blocks[b].insts[i].kind,
            id,
        )
}

/// The instruction without a method table nothing reads.
pub open spec fn without_table(
    program: ProgramView,
    functions: Seq<FunctionView>,
    inst: InstView,
) -> InstView {
    match inst.kind {
        InstKindView::MakeDyn { interface: Some(id), value } => if single(program, id) is Some
            && !still_called(functions, id) {
            InstView { kind: InstKindView::MakeDyn { interface: None, value }, ..inst }
        } else {
            inst
        },
        _ => inst,
    }
}

/// The function without the method tables nothing in `functions` reads.
pub open spec fn without_tables(
    program: ProgramView,
    functions: Seq<FunctionView>,
    function: FunctionView,
) -> FunctionView {
    FunctionView {
        blocks: function.blocks.map_values(
            |block: BlockView|
                BlockView {
                    insts: block.insts.map_values(
                        |inst: InstView| without_table(program, functions, inst),
                    ),
                    ..block
                },
        ),
        ..function
    }
}

/// Every function of the program with its calls made direct where they can be.
pub open spec fn devirtualized_functions(program: ProgramView) -> Seq<FunctionView> {
    program.functions.map_values(|held: FunctionView| devirtualized(program, held))
}

/// The program with every call made direct that can be, and without the
/// method tables no call is left to read.
pub open spec fn devirtualized_program(program: ProgramView) -> ProgramView {
    let functions = devirtualized_functions(program);
    ProgramView {
        functions: functions.map_values(
            |held: FunctionView| without_tables(program, functions, held),
        ),
        ..program
    }
}

/// Whether the values the calls of every function open can be told apart.
pub open spec fn room_to_open(program: ProgramView) -> bool {
    forall|i: int|
        0 <= i < program.functions.len() ==> devirtualized(
            program,
            #[trigger] program.functions[i],
        ).values.len() <= id_limit()
}

/// Whether one of `params` stands in a cell of the type.
pub open spec fn cells_hold(ty: TyView, params: Seq<Seq<char>>) -> bool {
    exists|k: int| 0 <= k < params.len() && ty.cell_mentions(#[trigger] params[k])
}

/// Whether one of `params` stands in a cell of one of the types.
pub open spec fn any_cells_hold(types: Seq<TyView>, params: Seq<Seq<char>>) -> bool {
    exists|i: int| 0 <= i < types.len() && cells_hold(#[trigger] types[i], params)
}

/// Whether one of `params` stands in a cell of the type of one of the fields.
pub open spec fn any_field_cells_hold(
    fields: Seq<(Seq<char>, TyView)>,
    params: Seq<Seq<char>>,
) -> bool {
    exists|i: int| 0 <= i < fields.len() && cells_hold((#[trigger] fields[i]).1, params)
}

/// Whether `args` are what is known, wherever something is.
pub open spec fn agrees(args: Seq<TyView>, known: Seq<Option<TyView>>) -> bool {
    &&& args.len() == known.len()
    &&& forall|i: int|
        0 <= i < known.len() ==> ((#[trigger] known[i]) matches Some(held) ==> args[i] == held)
}

/// Whether what is known before is still known after.
pub open spec fn keeps(before: Seq<Option<TyView>>, after: Seq<Option<TyView>>) -> bool {
    &&& before.len() == after.len()
    &&& forall|i: int|
        0 <= i < before.len() && (#[trigger] before[i]) is Some ==> after[i] == before[i]
}

proof fn agrees_before(
    args: Seq<TyView>,
    before: Seq<Option<TyView>>,
    after: Seq<Option<TyView>>,
)
    requires
        keeps(before, after),
        agrees(args, after),
    ensures
        agrees(args, before),
{
    assert forall|i: int| 0 <= i < before.len() implies ((#[trigger] before[i]) matches Some(held)
        ==> args[i] == held) by {
        assert(before[i] is Some ==> after[i] == before[i]);
    }
}

/// What inference finds is what makes the pattern the type: filling the
/// pattern's parameters with anything that agrees with what was found gives
/// back the type it was matched against. A cell is matched whole, so a pattern
/// in which a parameter stands in a cell is left out.
pub proof fn inference_is_sound(
    params: Seq<Seq<char>>,
    pattern: TyView,
    concrete: TyView,
    known: Seq<Option<TyView>>,
    args: Seq<TyView>,
)
    requires
        known.len() == params.len(),
        !cells_hold(pattern, params),
        !concrete.nests(),
        inferred(params, pattern, concrete, known) matches Some(found) ==> agrees(args, found),
    ensures
        inferred(params, pattern, concrete, known) matches Some(found) ==> {
            &&& keeps(known, found)
            &&& pattern.substitute(params, args) == concrete
        },
    decreases pattern, 0nat,
{
    match inferred(params, pattern, concrete, known) {
        None => {},
        Some(found) => {
            match (pattern, concrete) {
                (TyView::Parameter(name), _) => {
                    position_is_first(params, name);
                    if let Some(index) = position(params, name) {
                        assert(found[index] == Some(concrete));
                    }
                },
                (TyView::Named { id: left, args: a }, TyView::Named { id: right, args: b }) => {
                    cells_within(params, pattern, a, args);
                    list_inference_is_sound(params, a, b, known, args);
                },
                (
                    TyView::Builtin { kind: left, args: a },
                    TyView::Builtin { kind: right, args: b },
                ) => {
                    cells_within(params, pattern, a, args);
                    list_inference_is_sound(params, a, b, known, args);
                },
                (TyView::Tuple(a), TyView::Tuple(b)) => {
                    cells_within(params, pattern, a, args);
                    list_inference_is_sound(params, a, b, known, args);
                },
                (TyView::Union(a), TyView::Union(b)) => {
                    cells_within(params, pattern, a, args);
                    list_inference_is_sound(params, a, b, known, args);
                },
                (TyView::Record(a), TyView::Record(b)) => {
                    assert forall|i: int| 0 <= i < a.len() implies !cells_hold(
                        (#[trigger] a[i]).1,
                        params,
                    ) by {
                        assert forall|k: int| 0 <= k < params.len() implies !a[i].1.cell_mentions(
                            #[trigger] params[k],
                        ) by {
                            assert(!pattern.cell_mentions(params[k]));
                            assert(!any_field_cell_mentions(a, params[k]));
                        }
                    }
                    field_inference_is_sound(params, a, b, a.len(), known, args);
                    assert(substitute_fields(a, params, args) =~= b);
                    if params.len() == 0 {
                        assert(substitute_fields(a, params, args) =~= a);
                    }
                },
                (TyView::Optional(a), TyView::Optional(b)) => {
                    cells_inside(params, pattern, *a);
                    inference_is_sound(params, *a, *b, known, args);
                },
                (TyView::Array(a, m), TyView::Array(b, n)) => {
                    cells_inside(params, pattern, *a);
                    inference_is_sound(params, *a, *b, known, args);
                },
                (
                    TyView::Pointer { mutable: left_mutable, target: left },
                    TyView::Pointer { mutable: right_mutable, target: right },
                ) => {
                    cells_inside(params, pattern, *left);
                    inference_is_sound(params, *left, *right, known, args);
                },
                (
                    TyView::Function { asynchronous: m, params: a, result: left },
                    TyView::Function { asynchronous: n, params: b, result: right },
                ) => {
                    let held = inferred_all(params, a, b, known)->Some_0;
                    list_inference_keeps(params, a, b, known);
                    cells_within(params, pattern, a, args);
                    cells_inside(params, pattern, *left);
                    inference_is_sound(params, *left, *right, held, args);
                    agrees_before(args, held, found);
                    list_inference_is_sound(params, a, b, known, args);
                },
                (TyView::Cell(_), _) => {
                    assert forall|k: int| 0 <= k < params.len() && k < args.len() implies !pattern
                        .mentions(#[trigger] params[k]) by {
                        assert(!pattern.cell_mentions(params[k]));
                    }
                    unmentioned_stay(pattern, params, args);
                },
                _ => {},
            }
        },
    }
}

proof fn cells_within(
    params: Seq<Seq<char>>,
    pattern: TyView,
    members: Seq<TyView>,
    args: Seq<TyView>,
)
    requires
        !cells_hold(pattern, params),
        match pattern {
            TyView::Named { args, .. } => args == members,
            TyView::Builtin { args, .. } => args == members,
            TyView::Tuple(held) => held == members,
            TyView::Union(held) => held == members,
            TyView::Function { params: takes, .. } => takes == members,
            _ => false,
        },
    ensures
        !any_cells_hold(members, params),
        params.len() == 0 ==> substitute_all(members, params, args) == members,
{
    if params.len() == 0 {
        assert(substitute_all(members, params, args) =~= members);
    }
    assert forall|i: int| 0 <= i < members.len() implies !cells_hold(
        #[trigger] members[i],
        params,
    ) by {
        assert forall|k: int| 0 <= k < params.len() implies !members[i].cell_mentions(
            #[trigger] params[k],
        ) by {
            assert(!pattern.cell_mentions(params[k]));
            assert(!any_cell_mentions(members, params[k]));
        }
    }
}

proof fn cells_inside(params: Seq<Seq<char>>, pattern: TyView, inner: TyView)
    requires
        !cells_hold(pattern, params),
        match pattern {
            TyView::Optional(held) => *held == inner,
            TyView::Array(held, _) => *held == inner,
            TyView::Pointer { target, .. } => *target == inner,
            TyView::Function { result, .. } => *result == inner,
            _ => false,
        },
    ensures
        !cells_hold(inner, params),
{
    assert forall|k: int| 0 <= k < params.len() implies !inner.cell_mentions(
        #[trigger] params[k],
    ) by {
        assert(!pattern.cell_mentions(params[k]));
    }
}

proof fn inference_keeps(
    params: Seq<Seq<char>>,
    pattern: TyView,
    concrete: TyView,
    known: Seq<Option<TyView>>,
)
    requires
        known.len() == params.len(),
    ensures
        inferred(params, pattern, concrete, known) matches Some(found) ==> keeps(known, found),
    decreases pattern, 0nat,
{
    match (pattern, concrete) {
        (TyView::Parameter(name), _) => {
            position_is_first(params, name);
        },
        (TyView::Named { id: left, args: a }, TyView::Named { id: right, args: b }) => {
            list_inference_keeps(params, a, b, known);
        },
        (TyView::Builtin { kind: left, args: a }, TyView::Builtin { kind: right, args: b }) => {
            list_inference_keeps(params, a, b, known);
        },
        (TyView::Tuple(a), TyView::Tuple(b)) => {
            list_inference_keeps(params, a, b, known);
        },
        (TyView::Union(a), TyView::Union(b)) => {
            list_inference_keeps(params, a, b, known);
        },
        (TyView::Record(a), TyView::Record(b)) => {
            field_inference_keeps(params, a, b, a.len(), known);
        },
        (TyView::Optional(a), TyView::Optional(b)) => {
            inference_keeps(params, *a, *b, known);
        },
        (TyView::Array(a, m), TyView::Array(b, n)) => {
            inference_keeps(params, *a, *b, known);
        },
        (
            TyView::Pointer { mutable: left_mutable, target: left },
            TyView::Pointer { mutable: right_mutable, target: right },
        ) => {
            inference_keeps(params, *left, *right, known);
        },
        (
            TyView::Function { asynchronous: m, params: a, result: left },
            TyView::Function { asynchronous: n, params: b, result: right },
        ) => {
            list_inference_keeps(params, a, b, known);
            if let Some(held) = inferred_all(params, a, b, known) {
                inference_keeps(params, *left, *right, held);
            }
        },
        _ => {},
    }
}

proof fn list_inference_keeps(
    params: Seq<Seq<char>>,
    patterns: Seq<TyView>,
    concrete: Seq<TyView>,
    known: Seq<Option<TyView>>,
)
    requires
        known.len() == params.len(),
    ensures
        inferred_all(params, patterns, concrete, known) matches Some(found) ==> keeps(
            known,
            found,
        ),
    decreases patterns, patterns.len() + 1,
{
    first_inference_keeps(params, patterns, concrete, patterns.len(), known);
}

proof fn first_inference_keeps(
    params: Seq<Seq<char>>,
    patterns: Seq<TyView>,
    concrete: Seq<TyView>,
    count: nat,
    known: Seq<Option<TyView>>,
)
    requires
        known.len() == params.len(),
        count <= patterns.len(),
    ensures
        inferred_first(params, patterns, concrete, count, known) matches Some(found) ==> keeps(
            known,
            found,
        ),
    decreases patterns, count,
{
    if count > 0 {
        first_inference_keeps(params, patterns, concrete, (count - 1) as nat, known);
        if let Some(held) = inferred_first(params, patterns, concrete, (count - 1) as nat, known) {
            inference_keeps(params, patterns[count - 1], concrete[count - 1], held);
        }
    }
}

proof fn field_inference_keeps(
    params: Seq<Seq<char>>,
    patterns: Seq<(Seq<char>, TyView)>,
    concrete: Seq<(Seq<char>, TyView)>,
    count: nat,
    known: Seq<Option<TyView>>,
)
    requires
        known.len() == params.len(),
        count <= patterns.len(),
    ensures
        inferred_fields(params, patterns, concrete, count, known) matches Some(found) ==> keeps(
            known,
            found,
        ),
    decreases patterns, count,
{
    if count > 0 {
        field_inference_keeps(params, patterns, concrete, (count - 1) as nat, known);
        if let Some(held) = inferred_fields(params, patterns, concrete, (count - 1) as nat, known) {
            assert(decreases_to!(patterns => patterns[count - 1]));
            assert(decreases_to!(patterns[count - 1] => patterns[count - 1].1));
            inference_keeps(params, patterns[count - 1].1, concrete[count - 1].1, held);
        }
    }
}

proof fn list_inference_is_sound(
    params: Seq<Seq<char>>,
    patterns: Seq<TyView>,
    concrete: Seq<TyView>,
    known: Seq<Option<TyView>>,
    args: Seq<TyView>,
)
    requires
        known.len() == params.len(),
        !any_cells_hold(patterns, params),
        !any_nests(concrete),
        inferred_all(params, patterns, concrete, known) matches Some(found) ==> agrees(
            args,
            found,
        ),
    ensures
        inferred_all(params, patterns, concrete, known) matches Some(found) ==> {
            &&& keeps(known, found)
            &&& substitute_all(patterns, params, args) == concrete
        },
    decreases patterns, patterns.len() + 1,
{
    if inferred_all(params, patterns, concrete, known) is Some {
        first_inference_is_sound(params, patterns, concrete, patterns.len(), known, args);
        assert(substitute_all(patterns, params, args) =~= concrete);
    }
}

proof fn first_inference_is_sound(
    params: Seq<Seq<char>>,
    patterns: Seq<TyView>,
    concrete: Seq<TyView>,
    count: nat,
    known: Seq<Option<TyView>>,
    args: Seq<TyView>,
)
    requires
        known.len() == params.len(),
        count <= patterns.len() == concrete.len(),
        !any_cells_hold(patterns, params),
        !any_nests(concrete),
        inferred_first(params, patterns, concrete, count, known) matches Some(found) && agrees(
            args,
            found,
        ),
    ensures
        inferred_first(params, patterns, concrete, count, known) matches Some(found) && keeps(
            known,
            found,
        ),
        forall|i: int|
            0 <= i < count ==> (#[trigger] patterns[i]).substitute(params, args) == concrete[i],
    decreases patterns, count,
{
    if count > 0 {
        let held = inferred_first(params, patterns, concrete, (count - 1) as nat, known)->Some_0;
        let found = inferred_first(params, patterns, concrete, count, known)->Some_0;
        first_inference_keeps(params, patterns, concrete, (count - 1) as nat, known);
        assert(!cells_hold(patterns[count - 1], params));
        assert(!concrete[count - 1].nests());
        inference_is_sound(params, patterns[count - 1], concrete[count - 1], held, args);
        agrees_before(args, held, found);
        first_inference_is_sound(params, patterns, concrete, (count - 1) as nat, known, args);
    }
}

proof fn field_inference_is_sound(
    params: Seq<Seq<char>>,
    patterns: Seq<(Seq<char>, TyView)>,
    concrete: Seq<(Seq<char>, TyView)>,
    count: nat,
    known: Seq<Option<TyView>>,
    args: Seq<TyView>,
)
    requires
        known.len() == params.len(),
        count <= patterns.len() == concrete.len(),
        !any_field_cells_hold(patterns, params),
        !any_field_nests(concrete),
        inferred_fields(params, patterns, concrete, count, known) matches Some(found) && agrees(
            args,
            found,
        ),
    ensures
        inferred_fields(params, patterns, concrete, count, known) matches Some(found) && keeps(
            known,
            found,
        ),
        forall|i: int|
            0 <= i < count ==> (#[trigger] patterns[i]).0 == concrete[i].0
                && patterns[i].1.substitute(params, args) == concrete[i].1,
    decreases patterns, count,
{
    if count > 0 {
        let held = inferred_fields(params, patterns, concrete, (count - 1) as nat, known)->Some_0;
        let found = inferred_fields(params, patterns, concrete, count, known)->Some_0;
        field_inference_keeps(params, patterns, concrete, (count - 1) as nat, known);
        assert(!cells_hold(patterns[count - 1].1, params));
        assert(!concrete[count - 1].1.nests());
        assert(decreases_to!(patterns => patterns[count - 1]));
        assert(decreases_to!(patterns[count - 1] => patterns[count - 1].1));
        inference_is_sound(params, patterns[count - 1].1, concrete[count - 1].1, held, args);
        agrees_before(args, held, found);
        field_inference_is_sound(params, patterns, concrete, (count - 1) as nat, known, args);
    }
}

/// A resolved call has the signature the interface promises: with the type
/// arguments found, the function takes what the method takes and gives back
/// what the method gives back.
pub proof fn resolved_signature_is_the_promised_one(
    program: ProgramView,
    receiver: TyView,
    method: MethodId,
    callee: FuncId,
    type_args: Seq<TyView>,
    ty: TyView,
)
    requires
        implementation_arguments(program, receiver, method, callee) == Some((type_args, ty)),
        !receiver.nests(),
        ({
            let nominal = program.nominal(method.interface);
            let required = nominal.shape->Interface_0.methods[method.slot as int];
            !any_nests(required.params) && !required.result.nests()
        }),
        !any_cells_hold(
            program.function(callee).params,
            program.function(callee).type_params,
        ),
        !cells_hold(program.function(callee).result, program.function(callee).type_params),
    ensures
        ({
            let function = program.function(callee);
            let nominal = program.nominal(method.interface);
            let args = receiver->Named_args;
            let required = nominal.shape->Interface_0.methods[method.slot as int];
            &&& type_args.len() == function.type_params.len()
            &&& substitute_all(function.params, function.type_params, type_args) == seq![ty]
                + substitute_all(required.params, nominal.type_params, args)
            &&& function.result.substitute(function.type_params, type_args)
                == required.result.substitute(nominal.type_params, args)
        }),
{
    let function = program.function(callee);
    let nominal = program.nominal(method.interface);
    let args = receiver->Named_args;
    let required = nominal.shape->Interface_0.methods[method.slot as int];
    let params = substitute_all(required.params, nominal.type_params, args);
    let result = required.result.substitute(nominal.type_params, args);
    let patterns = function.params.skip(1);
    let start = nothing_known(function.type_params.len());
    let held = inferred_first(function.type_params, patterns, params, patterns.len(), start)->Some_0;
    let found = inferred(function.type_params, function.result, result, held)->Some_0;
    assert forall|i: int| 0 <= i < args.len() implies !(#[trigger] args[i]).nests() by {
        assert(!any_nests(args));
    }
    assert forall|i: int| 0 <= i < params.len() implies !(#[trigger] params[i]).nests() by {
        assert(!required.params[i].nests());
        filled_types_never_nest(required.params[i], nominal.type_params, args);
    }
    filled_types_never_nest(required.result, nominal.type_params, args);
    assert forall|i: int| 0 <= i < patterns.len() implies !cells_hold(
        #[trigger] patterns[i],
        function.type_params,
    ) by {
        assert(patterns[i] == function.params[i + 1]);
    }
    first_inference_keeps(function.type_params, patterns, params, patterns.len(), start);
    assert(agrees(type_args, found));
    inference_is_sound(function.type_params, function.result, result, held, type_args);
    agrees_before(type_args, held, found);
    first_inference_is_sound(
        function.type_params,
        patterns,
        params,
        patterns.len(),
        start,
        type_args,
    );
    assert forall|i: int| 0 <= i < function.params.len() implies #[trigger] substitute_all(
        function.params,
        function.type_params,
        type_args,
    )[i] == (seq![ty] + params)[i] by {
        if i > 0 {
            assert(patterns[i - 1] == function.params[i]);
        }
    }
    assert(substitute_all(function.params, function.type_params, type_args) =~= seq![ty] + params);
}

/// No call is left that could have been made direct.
pub proof fn no_resolvable_call_is_left(
    program: ProgramView,
    function: FunctionView,
    insts: Seq<InstView>,
    next: nat,
    at: int,
)
    requires
        0 <= at < direct(program, function, insts, next).len(),
    ensures
        resolved(program, function, direct(program, function, insts, next)[at].kind) is None,
    decreases insts.len(),
{
    if insts.len() > 0 {
        let shorter = insts.drop_last();
        let before = direct(program, function, shorter, next);
        if at < before.len() {
            no_resolvable_call_is_left(program, function, shorter, next, at);
        }
    }
}

/// An instruction that cannot be made direct stays as it is, in its order:
/// where none of them can, nothing changes.
pub proof fn unresolvable_calls_stay(
    program: ProgramView,
    function: FunctionView,
    insts: Seq<InstView>,
    next: nat,
)
    requires
        forall|i: int|
            0 <= i < insts.len() ==> resolved(program, function, (#[trigger] insts[i]).kind)
                is None,
    ensures
        direct(program, function, insts, next) == insts,
        opened(program, function, insts) == Seq::<TyView>::empty(),
    decreases insts.len(),
{
    if insts.len() > 0 {
        let shorter = insts.drop_last();
        assert forall|i: int| 0 <= i < shorter.len() implies resolved(
            program,
            function,
            (#[trigger] shorter[i]).kind,
        ) is None by {
            assert(shorter[i] == insts[i]);
        }
        unresolvable_calls_stay(program, function, shorter, next);
        assert(insts[insts.len() - 1] == insts.last());
        assert(shorter.push(insts.last()) =~= insts);
    } else {
        assert(insts =~= Seq::empty());
    }
}

/// A table goes only where nothing reads it: no call of the functions given
/// goes through that interface.
pub proof fn erased_tables_are_unread(
    program: ProgramView,
    functions: Seq<FunctionView>,
    inst: InstView,
)
    requires
        without_table(program, functions, inst) != inst,
    ensures
        inst.kind matches InstKindView::MakeDyn { interface: Some(id), .. } && !still_called(
            functions,
            id,
        ) && single(program, id) is Some,
{
}

proof fn values_grow(program: ProgramView, function: FunctionView, first: nat, last: nat)
    requires
        first <= last,
    ensures
        devirtualized_blocks(program, function, first).values.len() <= devirtualized_blocks(
            program,
            function,
            last,
        ).values.len(),
    decreases last,
{
    if first < last {
        values_grow(program, function, first, (last - 1) as nat);
    }
}

proof fn blocks_devirtualized(program: ProgramView, function: FunctionView, count: nat)
    requires
        count <= function.blocks.len(),
    ensures
        ({
            let after = devirtualized_blocks(program, function, count);
            &&& after == (FunctionView { values: after.values, blocks: after.blocks, ..function })
            &&& after.blocks.len() == function.blocks.len()
            &&& function.values.is_prefix_of(after.values)
            &&& forall|b: int|
                count <= b < function.blocks.len() ==> (#[trigger] after.blocks[b])
                    == function.blocks[b]
            &&& forall|b: int|
                0 <= b < count ==> (#[trigger] after.blocks[b]) == (BlockView {
                    insts: direct(
                        program,
                        function,
                        function.blocks[b].insts,
                        devirtualized_blocks(program, function, b as nat).values.len(),
                    ),
                    ..function.blocks[b]
                })
        }),
    decreases count,
{
    if count > 0 {
        blocks_devirtualized(program, function, (count - 1) as nat);
    }
}

proof fn direct_within(
    program: ProgramView,
    function: FunctionView,
    insts: Seq<InstView>,
    next: nat,
    values: nat,
    slots: nat,
)
    requires
        forall|i: int| 0 <= i < insts.len() ==> (#[trigger] insts[i]).within(values, slots),
        values <= next,
        next + opened(program, function, insts).len() <= id_limit(),
    ensures
        forall|i: int|
            0 <= i < direct(program, function, insts, next).len() ==> (#[trigger] direct(
                program,
                function,
                insts,
                next,
            )[i]).within(next + opened(program, function, insts).len(), slots),
    decreases insts.len(),
{
    if insts.len() > 0 {
        let shorter = insts.drop_last();
        let whole = direct(program, function, insts, next);
        let before = direct(program, function, shorter, next);
        let count = next + opened(program, function, insts).len();
        assert forall|i: int| 0 <= i < shorter.len() implies (#[trigger] shorter[i]).within(
            values,
            slots,
        ) by {
            assert(insts[i].within(values, slots));
        }
        direct_within(program, function, shorter, next, values, slots);
        assert(insts[insts.len() - 1].within(values, slots));
        within_grows(insts.last(), values, slots, count, slots);
        assert forall|i: int| 0 <= i < whole.len() implies (#[trigger] whole[i]).within(
            count,
            slots,
        ) by {
            if i < before.len() {
                assert(whole[i] == before[i]);
                within_grows(
                    before[i],
                    next + opened(program, function, shorter).len(),
                    slots,
                    count,
                    slots,
                );
            } else if resolved(program, function, insts.last().kind) is None {
                assert(whole[i] == insts.last());
            } else {
                let inside = Value((next + opened(program, function, shorter).len()) as u32);
                assert(inside.0 < count);
                let (callee, type_args, _) = resolved(program, function, insts.last().kind)->Some_0;
                assert(whole[i] == direct_call(insts.last(), inside, callee, type_args)[i
                    - before.len()]);
            }
        }
    }
}

/// A well-formed function stays well formed.
pub proof fn devirtualization_keeps_well_formed(program: ProgramView, function: FunctionView)
    requires
        function.well_formed(),
        devirtualized(program, function).values.len() <= id_limit(),
    ensures
        devirtualized(program, function).well_formed(),
{
    let count = function.blocks.len();
    let after = devirtualized(program, function);
    blocks_devirtualized(program, function, count);
    let values = after.values.len();
    let slots = function.slots.len();
    assert forall|b: int| 0 <= b < after.blocks.len() implies (#[trigger] after.blocks[b]).within(
        values,
        slots,
        after.blocks.len(),
    ) by {
        let next = devirtualized_blocks(program, function, b as nat).values.len();
        let held = function.blocks[b];
        assert(held.within(function.values.len(), slots, count));
        values_grow(program, function, (b + 1) as nat, count);
        values_grow(program, function, 0, b as nat);
        let reached = devirtualized_blocks(program, function, (b + 1) as nat).values.len();
        assert(reached == next + opened(program, function, held.insts).len());
        direct_within(program, function, held.insts, next, function.values.len(), slots);
        assert forall|i: int| 0 <= i < after.blocks[b].insts.len() implies (
        #[trigger] after.blocks[b].insts[i]).within(values, slots) by {
            within_grows(after.blocks[b].insts[i], reached, slots, values, slots);
        }
        if let Some(term) = held.term {
            assert forall|i: int| 0 <= i < term.targets().len() implies (
            #[trigger] term.targets()[i]).within(values, after.blocks.len()) by {
                assert(term.targets()[i].within(function.values.len(), count));
            }
        }
    }
}

/// What each parameter is known to be.
pub open spec fn maybe_tys(held: Seq<Option<Ty>>) -> Seq<Option<TyView>> {
    Seq::new(held.len(), |i: int| maybe_ty(held[i]))
}

/// Learns what each parameter of `params` has to be for `pattern` to become
/// `concrete`. `None` where nothing will do. A cell is matched whole, whatever
/// stands in it. What was known stays known either way.
pub fn infer(
    params: &Vec<String>,
    pattern: &Ty,
    concrete: &Ty,
    known: &mut Vec<Option<Ty>>,
) -> (done: Option<()>)
    requires
        old(known)@.len() == params@.len(),
    ensures
        final(known)@.len() == old(known)@.len(),
        keeps(maybe_tys(old(known)@), maybe_tys(final(known)@)),
        match inferred(names(params@), pattern@, concrete@, maybe_tys(old(known)@)) {
            Some(found) => done is Some && maybe_tys(final(known)@) == found,
            None => done is None,
        },
    decreases pattern, 0nat,
{
    match (pattern, concrete) {
        (Ty::Parameter(name), _) => match position_of(params, name) {
            Some(index) => {
                let ghost before = maybe_tys(known@);
                match &known[index] {
                    Some(held) => {
                        if *held == *concrete {
                            Some(())
                        } else {
                            None
                        }
                    },
                    None => {
                        known.set(index, Some(concrete.clone()));
                        assert(maybe_tys(known@) =~= before.update(index as int, Some(concrete@)));
                        Some(())
                    },
                }
            },
            None => if *pattern == *concrete {
                Some(())
            } else {
                None
            },
        },
        (Ty::Named { id: left, args: a }, Ty::Named { id: right, args: b }) => if *left == *right {
            infer_each(params, a, b, known)
        } else {
            None
        },
        (Ty::Builtin { kind: left, args: a }, Ty::Builtin { kind: right, args: b }) => if *left
            == *right {
            infer_each(params, a, b, known)
        } else {
            None
        },
        (Ty::Tuple(a), Ty::Tuple(b)) => infer_each(params, a, b, known),
        (Ty::Union(a), Ty::Union(b)) => infer_each(params, a, b, known),
        (Ty::Record(a), Ty::Record(b)) => if a.len() == b.len() {
            infer_fields(params, a, b, known)
        } else {
            None
        },
        (Ty::Optional(a), Ty::Optional(b)) => infer(params, a, b, known),
        (Ty::Array(a, m), Ty::Array(b, n)) => if *m == *n {
            infer(params, a, b, known)
        } else {
            None
        },
        (
            Ty::Pointer { mutable: left_mutable, target: left },
            Ty::Pointer { mutable: right_mutable, target: right },
        ) => if *left_mutable == *right_mutable {
            infer(params, left, right, known)
        } else {
            None
        },
        (
            Ty::Function { asynchronous: m, params: a, result: left },
            Ty::Function { asynchronous: n, params: b, result: right },
        ) => if *m == *n {
            match infer_each(params, a, b, known) {
                Some(_) => infer(params, left, right, known),
                None => None,
            }
        } else {
            None
        },
        _ => if *pattern == *concrete {
            Some(())
        } else {
            None
        },
    }
}

fn infer_each(
    params: &Vec<String>,
    patterns: &Vec<Ty>,
    concrete: &Vec<Ty>,
    known: &mut Vec<Option<Ty>>,
) -> (done: Option<()>)
    requires
        old(known)@.len() == params@.len(),
    ensures
        final(known)@.len() == old(known)@.len(),
        keeps(maybe_tys(old(known)@), maybe_tys(final(known)@)),
        match inferred_all(
            names(params@),
            tys(patterns@),
            tys(concrete@),
            maybe_tys(old(known)@),
        ) {
            Some(found) => done is Some && maybe_tys(final(known)@) == found,
            None => done is None,
        },
    decreases patterns, patterns.len() + 1,
{
    if patterns.len() != concrete.len() {
        return None;
    }
    assert(tys(patterns@).skip(0) =~= tys(patterns@));
    infer_first(params, patterns, concrete, 0, known)
}

fn infer_first(
    params: &Vec<String>,
    patterns: &Vec<Ty>,
    concrete: &Vec<Ty>,
    skipped: usize,
    known: &mut Vec<Option<Ty>>,
) -> (done: Option<()>)
    requires
        old(known)@.len() == params@.len(),
        skipped <= patterns@.len(),
        patterns@.len() - skipped == concrete@.len(),
    ensures
        final(known)@.len() == old(known)@.len(),
        keeps(maybe_tys(old(known)@), maybe_tys(final(known)@)),
        match inferred_first(
            names(params@),
            tys(patterns@).skip(skipped as int),
            tys(concrete@),
            concrete@.len(),
            maybe_tys(old(known)@),
        ) {
            Some(found) => done is Some && maybe_tys(final(known)@) == found,
            None => done is None,
        },
    decreases patterns, patterns.len(),
{
    let ghost held = tys(patterns@).skip(skipped as int);
    let ghost start = maybe_tys(known@);
    let mut i: usize = 0;
    while i < concrete.len()
        invariant
            i <= concrete.len(),
            skipped + concrete.len() == patterns.len(),
            held == tys(patterns@).skip(skipped as int),
            start == maybe_tys(old(known)@),
            keeps(start, maybe_tys(known@)),
            known@.len() == params@.len(),
            old(known)@.len() == params@.len(),
            inferred_first(names(params@), held, tys(concrete@), i as nat, start) == Some(
                maybe_tys(known@),
            ),
        decreases concrete.len() - i,
    {
        proof {
            assert(held[i as int] == patterns@[skipped + i]@);
        }
        assert(decreases_to!(patterns => patterns@));
        assert(decreases_to!(patterns@ => patterns@[skipped + i]));
        let done = infer(params, &patterns[skipped + i], &concrete[i], known);
        i += 1;
        if done.is_none() {
            proof {
                first_inference_fails(
                    names(params@),
                    held,
                    tys(concrete@),
                    i as nat,
                    concrete@.len(),
                    start,
                );
            }
            return None;
        }
    }
    Some(())
}

proof fn first_inference_fails(
    params: Seq<Seq<char>>,
    patterns: Seq<TyView>,
    concrete: Seq<TyView>,
    first: nat,
    count: nat,
    known: Seq<Option<TyView>>,
)
    requires
        first <= count <= patterns.len(),
        inferred_first(params, patterns, concrete, first, known) is None,
    ensures
        inferred_first(params, patterns, concrete, count, known) is None,
    decreases count,
{
    if first < count {
        first_inference_fails(params, patterns, concrete, first, (count - 1) as nat, known);
    }
}

fn infer_fields(
    params: &Vec<String>,
    patterns: &Vec<(String, Ty)>,
    concrete: &Vec<(String, Ty)>,
    known: &mut Vec<Option<Ty>>,
) -> (done: Option<()>)
    requires
        old(known)@.len() == params@.len(),
        patterns@.len() == concrete@.len(),
    ensures
        final(known)@.len() == old(known)@.len(),
        keeps(maybe_tys(old(known)@), maybe_tys(final(known)@)),
        match inferred_fields(
            names(params@),
            named_tys(patterns@),
            named_tys(concrete@),
            patterns@.len(),
            maybe_tys(old(known)@),
        ) {
            Some(found) => done is Some && maybe_tys(final(known)@) == found,
            None => done is None,
        },
    decreases patterns, patterns.len(),
{
    let ghost start = maybe_tys(known@);
    let ghost held = named_tys(patterns@);
    let mut i: usize = 0;
    while i < patterns.len()
        invariant
            i <= patterns.len(),
            patterns.len() == concrete.len(),
            held == named_tys(patterns@),
            start == maybe_tys(old(known)@),
            keeps(start, maybe_tys(known@)),
            known@.len() == params@.len(),
            old(known)@.len() == params@.len(),
            inferred_fields(names(params@), held, named_tys(concrete@), i as nat, start) == Some(
                maybe_tys(known@),
            ),
        decreases patterns.len() - i,
    {
        assert(decreases_to!(patterns => patterns@));
        assert(decreases_to!(patterns@ => patterns@[i as int]));
        assert(decreases_to!(patterns@[i as int] => patterns@[i as int].1));
        let same = patterns[i].0 == concrete[i].0;
        let done = if same {
            infer(params, &patterns[i].1, &concrete[i].1, known)
        } else {
            None
        };
        i += 1;
        if done.is_none() {
            proof {
                field_inference_fails(
                    names(params@),
                    held,
                    named_tys(concrete@),
                    i as nat,
                    held.len(),
                    start,
                );
            }
            return None;
        }
    }
    Some(())
}

proof fn field_inference_fails(
    params: Seq<Seq<char>>,
    patterns: Seq<(Seq<char>, TyView)>,
    concrete: Seq<(Seq<char>, TyView)>,
    first: nat,
    count: nat,
    known: Seq<Option<TyView>>,
)
    requires
        first <= count <= patterns.len(),
        inferred_fields(params, patterns, concrete, first, known) is None,
    ensures
        inferred_fields(params, patterns, concrete, count, known) is None,
    decreases count,
{
    if first < count {
        field_inference_fails(params, patterns, concrete, first, (count - 1) as nat, known);
    }
}

fn single_implementation<'a>(program: &'a Program, id: TypeId) -> (found: Option<
    &'a Implementation,
>)
    ensures
        match found {
            Some(held) => single(program@, id) == Some(held@),
            None => single(program@, id) is None,
        },
{
    if id.0 as usize >= program.types.len() {
        return None;
    }
    match &program.nominal(id).shape {
        Shape::Interface(interface) => if interface.implementors.len() == 1 {
            Some(&interface.implementors[0])
        } else {
            None
        },
        _ => None,
    }
}

fn settled(known: &Vec<Option<Ty>>) -> (types: Option<Vec<Ty>>)
    ensures
        match types {
            Some(held) => all_known(maybe_tys(known@)) && tys(held@) == known_types(
                maybe_tys(known@),
            ),
            None => !all_known(maybe_tys(known@)),
        },
{
    let mut types: Vec<Ty> = Vec::new();
    let mut i: usize = 0;
    while i < known.len()
        invariant
            i <= known.len(),
            types@.len() == i,
            forall|j: int|
                0 <= j < i ==> (#[trigger] maybe_tys(known@)[j]) == Some(types@[j].model()),
        decreases known.len() - i,
    {
        match &known[i] {
            Some(ty) => {
                assert(maybe_tys(known@)[i as int] == Some(ty@));
                types.push(ty.clone());
            },
            None => {
                assert(maybe_tys(known@)[i as int] is None);
                return None;
            },
        }
        i += 1;
    }
    assert(tys(types@) =~= known_types(maybe_tys(known@)));
    Some(types)
}

/// The type arguments with which `callee` is the implementation of `method`
/// for a receiver of the type given, and the type it then takes as receiver.
pub fn type_arguments(
    program: &Program,
    receiver: &Ty,
    method: MethodId,
    callee: FuncId,
) -> (found: Option<(Vec<Ty>, Ty)>)
    requires
        method.interface.0 < program@.types.len(),
        callee.0 < program@.functions.len(),
    ensures
        match found {
            Some((type_args, ty)) => implementation_arguments(
                program@,
                receiver@,
                method,
                callee,
            ) == Some((tys(type_args@), ty@)),
            None => implementation_arguments(program@, receiver@, method, callee) is None,
        },
{
    let (id, interface_args) = match receiver {
        Ty::Named { id, args } => (*id, args),
        _ => {
            return None;
        },
    };
    if id != method.interface {
        return None;
    }
    let nominal = program.nominal(method.interface);
    let interface = match &nominal.shape {
        Shape::Interface(interface) => interface,
        _ => {
            return None;
        },
    };
    if method.slot as usize >= interface.methods.len() {
        return None;
    }
    let required = &interface.methods[method.slot as usize];
    let params = substitute_each(&required.params, &nominal.type_params, interface_args);
    let result = required.result.substitute(&nominal.type_params, interface_args);
    let function = program.function(callee);
    assert(tys(params@).len() == params@.len());
    assert(function@.params.len() == function.params@.len());
    if function.params.len() == 0 || function.params.len() - 1 != params.len() {
        return None;
    }
    let mut known: Vec<Option<Ty>> = Vec::new();
    let mut i: usize = 0;
    while i < function.type_params.len()
        invariant
            i <= function.type_params.len(),
            known@.len() == i,
            forall|j: int| 0 <= j < i ==> (#[trigger] known@[j]) is None,
        decreases function.type_params.len() - i,
    {
        known.push(None);
        i += 1;
    }
    assert(maybe_tys(known@) =~= nothing_known(function@.type_params.len()));
    if infer_first(&function.type_params, &function.params, &params, 1, &mut known).is_none() {
        return None;
    }
    if infer(&function.type_params, &function.result, &result, &mut known).is_none() {
        return None;
    }
    match settled(&known) {
        Some(type_args) => {
            let ty = function.params[0].substitute(&function.type_params, &type_args);
            Some((type_args, ty))
        },
        None => None,
    }
}

fn resolve(program: &Program, function: &Function, kind: &InstKind) -> (found: Option<
    (FuncId, Vec<Ty>, Ty),
>)
    requires
        program@.tables_well_formed(),
        kind@.within(function@.values.len(), function@.slots.len()),
    ensures
        match found {
            Some((callee, type_args, ty)) => resolved(program@, function@, kind@) == Some(
                (callee, tys(type_args@), ty@),
            ),
            None => resolved(program@, function@, kind@) is None,
        },
{
    match kind {
        InstKind::CallVirtual { method, receiver, .. } => match single_implementation(
            program,
            method.interface,
        ) {
            Some(held) => {
                if method.slot as usize >= held.methods.len() {
                    return None;
                }
                let callee = held.methods[method.slot as usize];
                proof {
                    let nominal = program@.nominal(method.interface);
                    assert(program@.types[method.interface.0 as int].tables_within(
                        program@.functions.len(),
                    ));
                    let interface = nominal.shape->Interface_0;
                    assert(interface.implementors[0].methods[method.slot as int] == callee);
                }
                match type_arguments(program, function.type_of(*receiver), *method, callee) {
                    Some((type_args, ty)) => Some((callee, type_args, ty)),
                    None => None,
                }
            },
            None => None,
        },
        _ => None,
    }
}

fn push_direct(
    insts: &mut Vec<Inst>,
    inst: &Inst,
    inside: Value,
    callee: FuncId,
    type_args: Vec<Ty>,
)
    requires
        inst@.kind is CallVirtual,
    ensures
        views(final(insts)@) == views(old(insts)@) + direct_call(
            inst@,
            inside,
            callee,
            tys(type_args@),
        ),
{
    let ghost before = views(insts@);
    if let InstKind::CallVirtual { receiver, args, .. } = &inst.kind {
        let opening = Inst {
            result: Some(inside),
            kind: InstKind::DynValue { value: *receiver },
            span: inst.span,
        };
        let mut passed: Vec<Value> = Vec::new();
        passed.push(inside);
        push_values(&mut passed, args);
        assert(passed@ =~= seq![inside] + args@);
        let call = Inst {
            result: inst.result,
            kind: InstKind::Call { callee, type_args, args: passed },
            span: inst.span,
        };
        insts.push(opening);
        assert(views(insts@) =~= before.push(opening@));
        insts.push(call);
        assert(views(insts@) =~= before.push(opening@).push(call@));
        assert(views(insts@) =~= before + direct_call(inst@, inside, callee, tys(type_args@)));
    }
}

/// The function with every call made direct that can be.
#[verifier::rlimit(40)]
pub fn devirtualize(program: &Program, function: &Function) -> (after: Function)
    requires
        program@.tables_well_formed(),
        function@.well_formed(),
        devirtualized(program@, function@).values.len() <= id_limit(),
    ensures
        after@ == devirtualized(program@, function@),
{
    let mut after = function.clone();
    let mut b: usize = 0;
    while b < function.blocks.len()
        invariant
            b <= function.blocks.len(),
            program@.tables_well_formed(),
            function@.well_formed(),
            devirtualized(program@, function@).values.len() <= id_limit(),
            after@ == devirtualized_blocks(program@, function@, b as nat),
        decreases function.blocks.len() - b,
    {
        let block = &function.blocks[b];
        let ghost next = after@.values.len();
        let ghost before = after@;
        let ghost whole = block@.insts;
        proof {
            blocks_devirtualized(program@, function@, b as nat);
            values_grow(program@, function@, (b + 1) as nat, function@.blocks.len());
            assert(function@.blocks[b as int].within(
                function@.values.len(),
                function@.slots.len(),
                function@.blocks.len(),
            ));
            assert(before.values + Seq::<TyView>::empty() =~= before.values);
        }
        let mut built: Vec<Inst> = Vec::new();
        let mut i: usize = 0;
        assert(views(built@) =~= direct(program@, function@, whole.take(0), next));
        while i < block.insts.len()
            invariant
                i <= block.insts.len(),
                b < function.blocks.len(),
                block@ == function@.blocks[b as int],
                whole == block@.insts,
                program@.tables_well_formed(),
                block@.within(
                    function@.values.len(),
                    function@.slots.len(),
                    function@.blocks.len(),
                ),
                next == before.values.len(),
                next + opened(program@, function@, whole).len() <= id_limit(),
                after@ == (FunctionView {
                    values: before.values + opened(program@, function@, whole.take(i as int)),
                    ..before
                }),
                views(built@) == direct(program@, function@, whole.take(i as int), next),
            decreases block.insts.len() - i,
        {
            let inst = &block.insts[i];
            let ghost seen = views(built@);
            proof {
                assert(whole.take(i + 1).drop_last() =~= whole.take(i as int));
                assert(whole.take(i + 1).last() == inst@);
                assert(whole[i as int].within(function@.values.len(), function@.slots.len()));
                opened_grows(program@, function@, whole, (i + 1) as nat);
            }
            match resolve(program, function, &inst.kind) {
                Some((callee, type_args, ty)) => {
                    let inside = after.add_value(ty);
                    push_direct(&mut built, inst, inside, callee, type_args);
                    assert(after@.values =~= before.values + opened(
                        program@,
                        function@,
                        whole.take(i + 1),
                    ));
                },
                None => {
                    built.push(inst.clone());
                    assert(views(built@) =~= seen.push(inst@));
                },
            }
            i += 1;
        }
        assert(whole.take(i as int) =~= whole);
        after.block_mut(BlockId(b as u32)).insts = built;
        b += 1;
        assert(after@ =~= devirtualized_blocks(program@, function@, b as nat));
    }
    after
}

proof fn opened_grows(
    program: ProgramView,
    function: FunctionView,
    insts: Seq<InstView>,
    count: nat,
)
    requires
        count <= insts.len(),
    ensures
        opened(program, function, insts.take(count as int)).len() <= opened(
            program,
            function,
            insts,
        ).len(),
    decreases insts.len(),
{
    if count < insts.len() {
        let shorter = insts.drop_last();
        assert(shorter.take(count as int) =~= insts.take(count as int));
        opened_grows(program, function, shorter, count);
    } else {
        assert(insts.take(count as int) =~= insts);
    }
}

fn called_interfaces(functions: &Vec<Function>) -> (called: Vec<TypeId>)
    ensures
        forall|id: TypeId| called@.contains(id) <==> #[trigger] still_called(views(functions@), id),
{
    let ghost held = views(functions@);
    let mut called: Vec<TypeId> = Vec::new();
    let mut f: usize = 0;
    while f < functions.len()
        invariant
            f <= functions.len(),
            held == views(functions@),
            forall|id: TypeId| #[trigger] called@.contains(id) ==> still_called(held, id),
            forall|g: int, b: int, i: int, id: TypeId|
                0 <= g < f && 0 <= b < held[g].blocks.len() && 0 <= i
                    < held[g].blocks[b].insts.len() && #[trigger] calls_through(
                    held[g].blocks[b].insts[i].kind,
                    id,
                ) ==> called@.contains(id),
        decreases functions.len() - f,
    {
        let function = &functions[f];
        assert(held[f as int] == function@);
        let mut b: usize = 0;
        while b < function.blocks.len()
            invariant
                f < functions.len(),
                b <= function.blocks.len(),
                held == views(functions@),
                held[f as int] == function@,
                forall|id: TypeId| #[trigger] called@.contains(id) ==> still_called(held, id),
                forall|g: int, c: int, i: int, id: TypeId|
                    (0 <= g < f && 0 <= c < held[g].blocks.len() || g == f && 0 <= c < b) && 0 <= i
                        < held[g].blocks[c].insts.len() && #[trigger] calls_through(
                        held[g].blocks[c].insts[i].kind,
                        id,
                    ) ==> called@.contains(id),
            decreases function.blocks.len() - b,
        {
            let block = &function.blocks[b];
            assert(held[f as int].blocks[b as int] == block@);
            let mut i: usize = 0;
            while i < block.insts.len()
                invariant
                    f < functions.len(),
                    b < function.blocks.len(),
                    i <= block.insts.len(),
                    held == views(functions@),
                    held[f as int] == function@,
                    held[f as int].blocks[b as int] == block@,
                    forall|id: TypeId| #[trigger] called@.contains(id) ==> still_called(held, id),
                    forall|g: int, c: int, j: int, id: TypeId|
                        (0 <= g < f && 0 <= c < held[g].blocks.len() && 0 <= j
                            < held[g].blocks[c].insts.len() || g == f && 0 <= c < b && 0 <= j
                            < held[g].blocks[c].insts.len() || g == f && c == b && 0 <= j < i)
                            && #[trigger] calls_through(held[g].blocks[c].insts[j].kind, id)
                            ==> called@.contains(id),
                decreases block.insts.len() - i,
            {
                let ghost before = called@;
                assert(held[f as int].blocks[b as int].insts[i as int] == block.insts@[i as int]@);
                if let InstKind::CallVirtual { method, .. } = &block.insts[i].kind {
                    called.push(method.interface);
                    proof {
                        let id = method.interface;
                        assert(calls_through(
                            held[f as int].blocks[b as int].insts[i as int].kind,
                            id,
                        ));
                        assert(still_called(held, id));
                        assert forall|other: TypeId| #[trigger] called@.contains(other) implies
                            still_called(held, other) by {
                            if other != id {
                                let k = called@.index_of(other);
                                assert(before[k] == other);
                                assert(before.contains(other));
                            }
                        }
                        assert forall|other: TypeId| before.contains(other) implies
                            #[trigger] called@.contains(other) by {
                            let k = before.index_of(other);
                            assert(called@[k] == other);
                        }
                        assert(called@[called@.len() - 1] == id);
                    }
                }
                i += 1;
            }
            b += 1;
        }
        f += 1;
    }
    assert forall|id: TypeId| #[trigger] still_called(held, id) implies called@.contains(id) by {
        let (g, b, i) = choose|g: int, b: int, i: int|
            0 <= g < held.len() && 0 <= b < held[g].blocks.len() && 0 <= i
                < held[g].blocks[b].insts.len() && calls_through(
                #[trigger] held[g].blocks[b].insts[i].kind,
                id,
            );
        assert(calls_through(held[g].blocks[b].insts[i].kind, id));
    }
    called
}

fn has_interface(called: &Vec<TypeId>, id: TypeId) -> (found: bool)
    ensures
        found == called@.contains(id),
{
    let mut i: usize = 0;
    while i < called.len()
        invariant
            i <= called.len(),
            forall|j: int| 0 <= j < i ==> called@[j] != id,
        decreases called.len() - i,
    {
        if called[i] == id {
            return true;
        }
        i += 1;
    }
    false
}

fn erase_table(
    program: &Program,
    called: &Vec<TypeId>,
    inst: &Inst,
    Ghost(functions): Ghost<Seq<FunctionView>>,
) -> (after: Inst)
    requires
        forall|id: TypeId| called@.contains(id) <==> #[trigger] still_called(functions, id),
    ensures
        after@ == without_table(program@, functions, inst@),
{
    if let InstKind::MakeDyn { interface: Some(id), value } = &inst.kind {
        if single_implementation(program, *id).is_some() && !has_interface(called, *id) {
            return Inst {
                result: inst.result,
                kind: InstKind::MakeDyn { interface: None, value: *value },
                span: inst.span,
            };
        }
    }
    inst.clone()
}

fn erase_tables(
    program: &Program,
    called: &Vec<TypeId>,
    function: &mut Function,
    Ghost(functions): Ghost<Seq<FunctionView>>,
)
    requires
        forall|id: TypeId| called@.contains(id) <==> #[trigger] still_called(functions, id),
    ensures
        final(function)@ == without_tables(program@, functions, old(function)@),
{
    let ghost whole = function@;
    let mut b: usize = 0;
    while b < function.blocks.len()
        invariant
            b <= function.blocks.len(),
            whole == old(function)@,
            forall|id: TypeId| called@.contains(id) <==> #[trigger] still_called(functions, id),
            function@ == (FunctionView { blocks: function@.blocks, ..whole }),
            function@.blocks.len() == whole.blocks.len(),
            forall|c: int|
                0 <= c < b ==> (#[trigger] function@.blocks[c]) == without_tables(
                    program@,
                    functions,
                    whole,
                ).blocks[c],
            forall|c: int|
                b <= c < whole.blocks.len() ==> (#[trigger] function@.blocks[c])
                    == whole.blocks[c],
        decreases function.blocks.len() - b,
    {
        let ghost held = function@.blocks[b as int];
        let ghost earlier = function@;
        let mut built: Vec<Inst> = Vec::new();
        let mut i: usize = 0;
        while i < function.blocks[b].insts.len()
            invariant
                b < function.blocks.len(),
                i <= function.blocks[b as int].insts.len(),
                function@ == earlier,
                held == function@.blocks[b as int],
                forall|id: TypeId| called@.contains(id) <==> #[trigger] still_called(functions, id),
                built@.len() == i,
                forall|j: int|
                    0 <= j < i ==> (#[trigger] built@[j])@ == without_table(
                        program@,
                        functions,
                        held.insts[j],
                    ),
            decreases function.blocks[b as int].insts.len() - i,
        {
            built.push(
                erase_table(program, called, &function.blocks[b].insts[i], Ghost(functions)),
            );
            i += 1;
        }
        proof {
            assert(views(built@) =~= held.insts.map_values(
                |inst: InstView| without_table(program@, functions, inst),
            ));
        }
        let ghost count = function@.blocks.len();
        let held_mut = &mut function.blocks[b];
        held_mut.insts = built;
        proof {
            assert(function@.blocks =~= earlier.blocks.update(
                b as int,
                without_tables(program@, functions, whole).blocks[b as int],
            ));
        }
        b += 1;
    }
    assert(function@.blocks =~= without_tables(program@, functions, whole).blocks);
}

/// Replaces every call through an interface that has one implementation with
/// a direct call to it.
pub fn run(program: &mut Program)
    requires
        old(program)@.functions_well_formed(),
        old(program)@.tables_well_formed(),
        room_to_open(old(program)@),
    ensures
        final(program)@ == devirtualized_program(old(program)@),
{
    let ghost original = program@;
    let ghost expected = devirtualized_functions(original);
    let mut functions: Vec<Function> = Vec::new();
    let mut i: usize = 0;
    while i < program.functions.len()
        invariant
            i <= program.functions.len(),
            program@ == original,
            original.functions_well_formed(),
            original.tables_well_formed(),
            room_to_open(original),
            expected == devirtualized_functions(original),
            functions@.len() == i,
            forall|j: int| 0 <= j < i ==> (#[trigger] functions@[j])@ == expected[j],
        decreases program.functions.len() - i,
    {
        assert(original.functions[i as int].well_formed());
        functions.push(devirtualize(program, &program.functions[i]));
        i += 1;
    }
    assert(views(functions@) =~= expected);
    let called = called_interfaces(&functions);
    let mut i: usize = 0;
    while i < functions.len()
        invariant
            i <= functions.len(),
            program@ == original,
            functions@.len() == expected.len(),
            forall|id: TypeId| called@.contains(id) <==> #[trigger] still_called(expected, id),
            forall|j: int|
                0 <= j < i ==> (#[trigger] functions@[j])@ == without_tables(
                    original,
                    expected,
                    expected[j],
                ),
            forall|j: int| i <= j < expected.len() ==> (#[trigger] functions@[j])@ == expected[j],
        decreases functions.len() - i,
    {
        erase_tables(program, &called, &mut functions[i], Ghost(expected));
        i += 1;
    }
    program.functions = functions;
    assert(program@.functions =~= devirtualized_program(original).functions);
}

} // verus!
