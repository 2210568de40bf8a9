//! Whole-program monomorphization.

use vstd::prelude::*;
use vstd::string::StringExecFns;

use crate::inst::{Inst, InstKind, InstKindView, InstView, Value};
use crate::program::{
    finalizer_among, finalizer_views, id_limit, views, Block, BlockView, FuncId, Function,
    FunctionView, Program, ProgramView,
};
use crate::text::{join, joined, names};
use crate::ty::{
    any_cell_mentions, any_field_cell_mentions, clone_tys, named_tys, same_tys, spellings,
    substitute_all, substitute_each, ty_texts, tys, Ty, TyView, TypeId,
};

verus! {

/// A copy of `template` with `args` where its type parameters were.
pub open spec fn substituted(template: FunctionView, args: Seq<TyView>) -> FunctionView {
    let params = template.type_params;
    FunctionView {
        name: template.name + "<"@ + joined(ty_texts(args), ", "@) + ">"@,
        type_params: Seq::empty(),
        params: substitute_all(template.params, params, args),
        result: template.result.substitute(params, args),
        blocks: template.blocks.map_values(
            |block: BlockView|
                BlockView {
                    insts: block.insts.map_values(
                        |inst: InstView|
                            InstView { kind: inst.kind.substitute(params, args), ..inst },
                    ),
                    ..block
                },
        ),
        values: substitute_all(template.values, params, args),
        slots: substitute_all(template.slots, params, args),
        ..template
    }
}

/// A program in the course of being made concrete: which instance was made of
/// which template with which arguments, and which instances still have calls
/// to look at.
pub struct MonoView {
    pub program: ProgramView,
    pub made: Seq<(FuncId, Seq<TyView>, FuncId)>,
    pub pending: Seq<FuncId>,
}

/// The instance of `template` for `args`, where one was made.
pub open spec fn made_for(
    made: Seq<(FuncId, Seq<TyView>, FuncId)>,
    template: FuncId,
    args: Seq<TyView>,
) -> Option<FuncId>
    decreases made.len(),
{
    if made.len() == 0 {
        None
    } else if made.last().0 == template && made.last().1 == args {
        Some(made.last().2)
    } else {
        made_for(made.drop_last(), template, args)
    }
}

/// The instance of `template` for `args`, made if nothing has asked for it
/// before.
pub open spec fn instance(
    state: MonoView,
    template: FuncId,
    args: Seq<TyView>,
) -> (MonoView, FuncId) {
    match made_for(state.made, template, args) {
        Some(found) => (state, found),
        None => {
            let id = state.program.next_function();
            (
                MonoView {
                    program: state.program.add_function(
                        substituted(state.program.function(template), args),
                    ),
                    made: state.made.push((template, args, id)),
                    pending: state.pending.push(id),
                },
                id,
            )
        },
    }
}

/// The function with the call at `at` in the block at `block` naming `callee`,
/// and no type arguments.
pub open spec fn with_callee(
    function: FunctionView,
    block: int,
    at: int,
    callee: FuncId,
) -> FunctionView {
    let held = function.blocks[block];
    let inst = held.insts[at];
    let kind = match inst.kind {
        InstKindView::Call { args, .. } => InstKindView::Call {
            callee,
            type_args: Seq::empty(),
            args,
        },
        other => other,
    };
    FunctionView {
        blocks: function.blocks.update(
            block,
            BlockView { insts: held.insts.update(at, InstView { kind, ..inst }), ..held },
        ),
        ..function
    }
}

/// Whether the instruction calls something with type arguments.
pub open spec fn calls_template(kind: InstKindView) -> bool {
    kind matches InstKindView::Call { type_args, .. } && type_args.len() != 0
}

/// The program with the call at `at` in the block at `block` of `id`, where it
/// is one with type arguments, naming an instance instead.
pub open spec fn rewrite_inst(state: MonoView, id: FuncId, block: int, at: int) -> MonoView {
    match state.program.function(id).blocks[block].insts[at].kind {
        InstKindView::Call { callee, type_args, .. } => if type_args.len() == 0 {
            state
        } else {
            let (after, made) = instance(state, callee, type_args);
            MonoView {
                program: after.program.with_function(
                    id,
                    with_callee(after.program.function(id), block, at, made),
                ),
                ..after
            }
        },
        _ => state,
    }
}

/// The same for the first `count` instructions of a block, in order.
pub open spec fn rewrite_block(state: MonoView, id: FuncId, block: int, count: nat) -> MonoView
    decreases count,
{
    if count == 0 {
        state
    } else {
        rewrite_inst(
            rewrite_block(state, id, block, (count - 1) as nat),
            id,
            block,
            count - 1,
        )
    }
}

/// The same for the first `count` blocks of a function, in order.
pub open spec fn rewrite_blocks(state: MonoView, id: FuncId, count: nat) -> MonoView
    decreases count,
{
    if count == 0 {
        state
    } else {
        let before = rewrite_blocks(state, id, (count - 1) as nat);
        rewrite_block(
            before,
            id,
            count - 1,
            before.program.function(id).blocks[count - 1].insts.len(),
        )
    }
}

/// The program with every call with type arguments in `id` naming an instance.
pub open spec fn rewritten(state: MonoView, id: FuncId) -> MonoView {
    rewrite_blocks(state, id, state.program.function(id).blocks.len())
}

/// The same for the first `count` functions that are not templates.
pub open spec fn rewrite_roots(state: MonoView, count: nat) -> MonoView
    decreases count,
{
    if count == 0 {
        state
    } else {
        let before = rewrite_roots(state, (count - 1) as nat);
        if before.program.functions[count - 1].type_params.len() == 0 {
            rewritten(before, FuncId((count - 1) as u32))
        } else {
            before
        }
    }
}

/// Whether `after` is what `before` becomes by making instances and changing
/// what calls in `id` name.
pub open spec fn grows(before: MonoView, after: MonoView, id: FuncId) -> bool {
    &&& after.program == (ProgramView { functions: after.program.functions, ..before.program })
    &&& before.program.functions.len() <= after.program.functions.len()
    &&& after.program.functions.len() - before.program.functions.len() == after.pending.len()
        - before.pending.len()
    &&& before.pending.is_prefix_of(after.pending)
    &&& forall|i: int|
        0 <= i < before.program.functions.len() && i != id.0 ==> (
        #[trigger] after.program.functions[i]) == before.program.functions[i]
    &&& same_shape(before.program.function(id), after.program.function(id))
    &&& forall|k: int|
        before.pending.len() <= k < after.pending.len() ==> (#[trigger] after.pending[k]).0
            == before.program.functions.len() + (k - before.pending.len())
    &&& forall|i: int|
        before.program.functions.len() <= i < after.program.functions.len() ==> (
        #[trigger] after.program.functions[i]).type_params.len() == 0
}

/// Whether two functions differ at most in what their calls name.
pub open spec fn same_shape(before: FunctionView, after: FunctionView) -> bool {
    &&& after == (FunctionView { blocks: after.blocks, ..before })
    &&& after.blocks.len() == before.blocks.len()
    &&& forall|b: int|
        0 <= b < before.blocks.len() ==> (#[trigger] after.blocks[b]).insts.len()
            == before.blocks[b].insts.len()
}

proof fn instance_grows_or_not(
    state: MonoView,
    template: FuncId,
    args: Seq<TyView>,
    id: FuncId,
)
    requires
        id.0 < state.program.functions.len(),
    ensures
        ({
            let after = instance(state, template, args).0;
            &&& after.program.functions.len() >= state.program.functions.len()
            &&& after.program.functions.len() - state.program.functions.len()
                == after.pending.len() - state.pending.len()
            &&& after.program.function(id) == state.program.function(id)
        }),
{
}

proof fn inst_counts(state: MonoView, id: FuncId, block: int, at: int)
    requires
        id.0 < state.program.functions.len(),
        0 <= block < state.program.function(id).blocks.len(),
        0 <= at < state.program.function(id).blocks[block].insts.len(),
    ensures
        ({
            let after = rewrite_inst(state, id, block, at);
            &&& after.program.functions.len() >= state.program.functions.len()
            &&& after.program.functions.len() - state.program.functions.len()
                == after.pending.len() - state.pending.len()
            &&& same_shape(state.program.function(id), after.program.function(id))
        }),
{
    match state.program.function(id).blocks[block].insts[at].kind {
        InstKindView::Call { callee, type_args, .. } => {
            if type_args.len() != 0 {
                instance_grows_or_not(state, callee, type_args, id);
            }
        },
        _ => {},
    }
}

proof fn block_counts(state: MonoView, id: FuncId, block: int, count: nat)
    requires
        id.0 < state.program.functions.len(),
        0 <= block < state.program.function(id).blocks.len(),
        count <= state.program.function(id).blocks[block].insts.len(),
    ensures
        ({
            let after = rewrite_block(state, id, block, count);
            &&& after.program.functions.len() >= state.program.functions.len()
            &&& after.program.functions.len() - state.program.functions.len()
                == after.pending.len() - state.pending.len()
            &&& same_shape(state.program.function(id), after.program.function(id))
        }),
    decreases count,
{
    if count > 0 {
        block_counts(state, id, block, (count - 1) as nat);
        let before = rewrite_block(state, id, block, (count - 1) as nat);
        assert(before.program.function(id).blocks[block].insts.len() == state.program.function(
            id,
        ).blocks[block].insts.len());
        inst_counts(before, id, block, count - 1);
    }
}

/// Rewriting calls takes no function away, makes one instance for each that
/// comes to wait, and leaves the rest of the function alone.
pub proof fn blocks_count(state: MonoView, id: FuncId, count: nat)
    requires
        id.0 < state.program.functions.len(),
        count <= state.program.function(id).blocks.len(),
    ensures
        ({
            let after = rewrite_blocks(state, id, count);
            &&& after.program.functions.len() >= state.program.functions.len()
            &&& after.program.functions.len() - state.program.functions.len()
                == after.pending.len() - state.pending.len()
            &&& same_shape(state.program.function(id), after.program.function(id))
        }),
    decreases count,
{
    if count > 0 {
        blocks_count(state, id, (count - 1) as nat);
        let before = rewrite_blocks(state, id, (count - 1) as nat);
        block_counts(
            before,
            id,
            count - 1,
            before.program.function(id).blocks[count - 1].insts.len(),
        );
    }
}

/// How many more functions can be told apart than there are, and one for the
/// case that there are as many as can.
pub open spec fn ids_left(functions: nat) -> nat {
    if functions <= id_limit() {
        (id_limit() + 1 - functions) as nat
    } else {
        0
    }
}

/// The program with every call with type arguments in the instances that are
/// waiting naming an instance, in those this makes, and so on. It stops where
/// there are more functions than can be told apart.
pub open spec fn drained(state: MonoView) -> MonoView
    decreases ids_left(state.program.functions.len()), state.pending.len(),
{
    if state.pending.len() == 0 || state.program.functions.len() > id_limit()
        || state.pending.last().0 >= state.program.functions.len() {
        state
    } else {
        let next = MonoView { pending: state.pending.drop_last(), ..state };
        let id = state.pending.last();
        proof {
            blocks_count(next, id, next.program.function(id).blocks.len());
        }
        drained(rewritten(next, id))
    }
}

/// Whether a type mentions no parameter, looking inside everything but cells.
pub open spec fn settled_type(ty: TyView) -> bool
    decreases ty,
{
    match ty {
        TyView::Parameter(_) => false,
        TyView::Named { args, .. } => all_settled(args),
        TyView::Builtin { args, .. } => all_settled(args),
        TyView::Tuple(members) => all_settled(members),
        TyView::Union(members) => all_settled(members),
        TyView::Record(fields) => all_fields_settled(fields),
        TyView::Optional(inner) => settled_type(*inner),
        TyView::Array(inner, _) => settled_type(*inner),
        TyView::Pointer { target, .. } => settled_type(*target),
        TyView::Function { params, result, .. } => all_settled(params) && settled_type(*result),
        _ => true,
    }
}

/// Whether every one of the types is settled.
pub open spec fn all_settled(types: Seq<TyView>) -> bool
    decreases types,
{
    forall|i: int| 0 <= i < types.len() ==> settled_type(#[trigger] types[i])
}

/// Whether the type of every one of the fields is settled.
pub open spec fn all_fields_settled(fields: Seq<(Seq<char>, TyView)>) -> bool
    decreases fields,
{
    forall|i: int| 0 <= i < fields.len() ==> settled_type((#[trigger] fields[i]).1)
}

/// Whether a value of the type could have a finalizer.
pub open spec fn may_be_finalized(ty: TyView) -> bool {
    ty is Named && settled_type(ty)
}

/// What was found, and those of the first `count` types that could have a
/// finalizer and were not found yet.
pub open spec fn with_receivers(found: Seq<TyView>, types: Seq<TyView>, count: nat) -> Seq<TyView>
    decreases count,
{
    if count == 0 {
        found
    } else {
        let before = with_receivers(found, types, (count - 1) as nat);
        if may_be_finalized(types[count - 1]) && !before.contains(types[count - 1]) {
            before.push(types[count - 1])
        } else {
            before
        }
    }
}

/// Every type a value of the first `count` functions has, that could have a
/// finalizer, once. Templates have no values.
pub open spec fn receivers(functions: Seq<FunctionView>, count: nat) -> Seq<TyView>
    decreases count,
{
    if count == 0 {
        Seq::empty()
    } else {
        let before = receivers(functions, (count - 1) as nat);
        let function = functions[count - 1];
        if function.type_params.len() == 0 {
            with_receivers(before, function.values, function.values.len())
        } else {
            before
        }
    }
}

/// The finalizer declared for the type `id`, whatever its arguments.
pub open spec fn declared_finalizer(
    templates: Seq<(TyView, FuncId)>,
    id: TypeId,
) -> Option<FuncId>
    decreases templates.len(),
{
    if templates.len() == 0 {
        None
    } else if templates[0].0 matches TyView::Named { id: held, .. } && held == id {
        Some(templates[0].1)
    } else {
        declared_finalizer(templates.skip(1), id)
    }
}

/// The finalizers with one for `receiver`, where one was declared for its type
/// and it has none yet.
pub open spec fn finalize(
    state: MonoView,
    templates: Seq<(TyView, FuncId)>,
    done: Seq<(TyView, FuncId)>,
    receiver: TyView,
) -> (MonoView, Seq<(TyView, FuncId)>) {
    match receiver {
        TyView::Named { id, args } => match declared_finalizer(templates, id) {
            Some(template) => if finalizer_among(done, receiver) is Some {
                (state, done)
            } else if state.program.function(template).type_params.len() != 0 {
                let (after, made) = instance(state, template, args);
                (after, done.push((receiver, made)))
            } else {
                (state, done.push((receiver, template)))
            },
            None => (state, done),
        },
        _ => (state, done),
    }
}

/// The same for the first `count` receivers, in order.
pub open spec fn finalize_each(
    state: MonoView,
    templates: Seq<(TyView, FuncId)>,
    done: Seq<(TyView, FuncId)>,
    found: Seq<TyView>,
    count: nat,
) -> (MonoView, Seq<(TyView, FuncId)>)
    decreases count,
{
    if count == 0 {
        (state, done)
    } else {
        let (before, held) = finalize_each(state, templates, done, found, (count - 1) as nat);
        finalize(before, templates, held, found[count - 1])
    }
}

/// The finalizers for every type a value of the program has. Making one may
/// bring new values, and with them new types: it goes on until a round makes
/// no instance.
pub open spec fn finalized(
    state: MonoView,
    templates: Seq<(TyView, FuncId)>,
    done: Seq<(TyView, FuncId)>,
) -> (MonoView, Seq<(TyView, FuncId)>)
    decreases ids_left(state.program.functions.len()),
{
    let found = receivers(state.program.functions, state.program.functions.len());
    let (after, held) = finalize_each(state, templates, done, found, found.len());
    if after.program.functions.len() <= state.program.functions.len()
        || after.program.functions.len() > id_limit() {
        (after, held)
    } else {
        let next = drained(after);
        proof {
            drained_counts(after);
        }
        finalized(next, templates, held)
    }
}

/// Working off what waits takes no function away.
pub proof fn drained_counts(state: MonoView)
    ensures
        drained(state).program.functions.len() >= state.program.functions.len(),
    decreases ids_left(state.program.functions.len()), state.pending.len(),
{
    if state.pending.len() == 0 || state.program.functions.len() > id_limit()
        || state.pending.last().0 >= state.program.functions.len() {
    } else {
        let next = MonoView { pending: state.pending.drop_last(), ..state };
        let id = state.pending.last();
        blocks_count(next, id, next.program.function(id).blocks.len());
        drained_counts(rewritten(next, id));
    }
}

/// The program with every call in its code naming code: an instance in the
/// place of each template with arguments, and finalizers for the types its
/// values have.
pub open spec fn monomorphized(program: ProgramView) -> ProgramView {
    let start = MonoView { program, made: Seq::empty(), pending: Seq::empty() };
    let (after, done) = finalized(
        drained(rewrite_roots(start, program.functions.len())),
        program.finalizers,
        Seq::empty(),
    );
    ProgramView { finalizers: done, ..after.program }
}

/// Whether everything the state names is there, and what waits is code.
pub open spec fn valid(state: MonoView) -> bool {
    &&& state.program.functions.len() <= id_limit()
    &&& state.program.calls_well_formed()
    &&& forall|k: int|
        0 <= k < state.made.len() ==> (#[trigger] state.made[k]).2.0
            < state.program.functions.len()
    &&& forall|k: int|
        0 <= k < state.pending.len() ==> (#[trigger] state.pending[k]).0
            < state.program.functions.len() && state.program.function(
            state.pending[k],
        ).type_params.len() == 0
}

proof fn made_is_there(
    made: Seq<(FuncId, Seq<TyView>, FuncId)>,
    template: FuncId,
    args: Seq<TyView>,
    functions: nat,
)
    requires
        forall|k: int| 0 <= k < made.len() ==> (#[trigger] made[k]).2.0 < functions,
    ensures
        made_for(made, template, args) matches Some(found) ==> found.0 < functions,
    decreases made.len(),
{
    if made.len() > 0 {
        let shorter = made.drop_last();
        assert(made[made.len() - 1].2.0 < functions);
        assert forall|k: int| 0 <= k < shorter.len() implies (#[trigger] shorter[k]).2.0
            < functions by {
            assert(made[k].2.0 < functions);
        }
        made_is_there(shorter, template, args, functions);
    }
}

proof fn substituted_calls(template: FunctionView, args: Seq<TyView>, functions: nat)
    requires
        template.calls_within(functions),
    ensures
        substituted(template, args).calls_within(functions),
{
    let after = substituted(template, args);
    assert forall|b: int, i: int|
        0 <= b < after.blocks.len() && 0 <= i < after.blocks[b].insts.len() implies ((
    #[trigger] after.blocks[b].insts[i]).kind.func() matches Some(func) ==> func.0 < functions) by {
        assert(template.blocks[b].insts[i].kind.func() matches Some(func) ==> func.0 < functions);
    }
}

proof fn calls_within_more(function: FunctionView, functions: nat, more: nat)
    requires
        function.calls_within(functions),
        functions <= more,
    ensures
        function.calls_within(more),
{
    assert forall|b: int, i: int|
        0 <= b < function.blocks.len() && 0 <= i < function.blocks[b].insts.len() implies ((
    #[trigger] function.blocks[b].insts[i]).kind.func() matches Some(func) ==> func.0 < more) by {}
}

proof fn instance_grows(state: MonoView, template: FuncId, args: Seq<TyView>, id: FuncId)
    requires
        valid(state),
        id.0 < state.program.functions.len(),
        template.0 < state.program.functions.len(),
        instance(state, template, args).0.program.functions.len() <= id_limit(),
    ensures
        valid(instance(state, template, args).0),
        grows(state, instance(state, template, args).0, id),
        instance(state, template, args).0.program.function(id) == state.program.function(id),
        instance(state, template, args).1.0 < instance(
            state,
            template,
            args,
        ).0.program.functions.len(),
{
    let (after, found) = instance(state, template, args);
    made_is_there(state.made, template, args, state.program.functions.len());
    if made_for(state.made, template, args) is None {
        let count = state.program.functions.len();
        assert(state.program.functions[template.0 as int].calls_within(count));
        substituted_calls(state.program.function(template), args, count);
        assert forall|i: int| 0 <= i < after.program.functions.len() implies (
        #[trigger] after.program.functions[i]).calls_within(after.program.functions.len()) by {
            if i < count {
                assert(state.program.functions[i].calls_within(count));
            }
            calls_within_more(after.program.functions[i], count, count + 1);
        }
        assert forall|k: int| 0 <= k < after.made.len() implies (#[trigger] after.made[k]).2.0
            < after.program.functions.len() by {
            if k < state.made.len() {
                assert(state.made[k].2.0 < count);
            }
        }
        assert forall|k: int| 0 <= k < after.pending.len() implies (#[trigger] after.pending[k]).0
            < after.program.functions.len() && after.program.function(
            after.pending[k],
        ).type_params.len() == 0 by {
            if k < state.pending.len() {
                assert(state.pending[k].0 < count);
            }
        }
    }
}

proof fn inst_grows(state: MonoView, id: FuncId, block: int, at: int)
    requires
        valid(state),
        id.0 < state.program.functions.len(),
        0 <= block < state.program.function(id).blocks.len(),
        0 <= at < state.program.function(id).blocks[block].insts.len(),
        rewrite_inst(state, id, block, at).program.functions.len() <= id_limit(),
    ensures
        ({
            let after = rewrite_inst(state, id, block, at);
            let now = after.program.function(id);
            let was = state.program.function(id);
            &&& valid(after)
            &&& grows(state, after, id)
            &&& !calls_template(now.blocks[block].insts[at].kind)
            &&& forall|b: int, i: int|
                0 <= b < was.blocks.len() && 0 <= i < was.blocks[b].insts.len() && (b != block || i
                    != at) ==> (#[trigger] now.blocks[b].insts[i]) == was.blocks[b].insts[i]
        }),
{
    let was = state.program.function(id);
    match was.blocks[block].insts[at].kind {
        InstKindView::Call { callee, type_args, .. } => {
            if type_args.len() != 0 {
                let count = state.program.functions.len();
                assert(state.program.functions[id.0 as int].calls_within(count));
                assert(was.blocks[block].insts[at].kind.func() == Some(callee));
                instance_grows(state, callee, type_args, id);
                let (middle, made) = instance(state, callee, type_args);
                let after = rewrite_inst(state, id, block, at);
                let now = after.program.function(id);
                let total = after.program.functions.len();
                assert(total == middle.program.functions.len());
                assert forall|i: int| 0 <= i < total implies (
                #[trigger] after.program.functions[i]).calls_within(total) by {
                    assert(middle.program.functions[i].calls_within(total));
                    if i == id.0 {
                        assert forall|b: int, j: int|
                            0 <= b < now.blocks.len() && 0 <= j < now.blocks[b].insts.len() implies
                            ((#[trigger] now.blocks[b].insts[j]).kind.func() matches Some(func)
                                ==> func.0 < total) by {
                            if b != block || j != at {
                                assert(middle.program.functions[i].blocks[b].insts[j]
                                    == now.blocks[b].insts[j]);
                            }
                        }
                    }
                }
                assert forall|k: int| 0 <= k < after.pending.len() implies (
                #[trigger] after.pending[k]).0 < total && after.program.function(
                    after.pending[k],
                ).type_params.len() == 0 by {
                    assert(middle.pending[k].0 < total);
                }
                assert forall|i: int|
                    count <= i < total implies (#[trigger] after.program.functions[i]).type_params.len()
                    == 0 by {
                    assert(middle.program.functions[i].type_params.len() == 0);
                }
                assert forall|i: int| 0 <= i < count && i != id.0 implies (
                #[trigger] after.program.functions[i]) == state.program.functions[i] by {
                    assert(middle.program.functions[i] == state.program.functions[i]);
                }
            }
        },
        _ => {},
    }
}

proof fn grows_further(first: MonoView, second: MonoView, third: MonoView, id: FuncId)
    requires
        id.0 < first.program.functions.len(),
        grows(first, second, id),
        grows(second, third, id),
    ensures
        grows(first, third, id),
{
    assert forall|i: int| 0 <= i < first.program.functions.len() && i != id.0 implies (
    #[trigger] third.program.functions[i]) == first.program.functions[i] by {
        assert(second.program.functions[i] == first.program.functions[i]);
    }
    assert forall|k: int| first.pending.len() <= k < third.pending.len() implies (
    #[trigger] third.pending[k]).0 == first.program.functions.len() + (k
        - first.pending.len()) by {
        if k < second.pending.len() {
            assert(second.pending[k].0 == first.program.functions.len() + (k
                - first.pending.len()));
            assert(third.pending[k] == second.pending[k]);
        }
    }
    assert forall|i: int| first.program.functions.len() <= i
        < third.program.functions.len() implies (
    #[trigger] third.program.functions[i]).type_params.len() == 0 by {
        if i < second.program.functions.len() {
            assert(second.program.functions[i].type_params.len() == 0);
            assert(third.program.functions[i] == second.program.functions[i]);
        }
    }
    let a = first.program.function(id);
    let b = second.program.function(id);
    let c = third.program.function(id);
    assert forall|k: int| 0 <= k < a.blocks.len() implies (#[trigger] c.blocks[k]).insts.len()
        == a.blocks[k].insts.len() by {
        assert(b.blocks[k].insts.len() == a.blocks[k].insts.len());
    }
    assert(first.pending.is_prefix_of(third.pending)) by {
        assert forall|k: int| 0 <= k < first.pending.len() implies first.pending[k]
            == third.pending[k] by {
            assert(first.pending[k] == second.pending[k]);
        }
    }
}

proof fn block_grows(state: MonoView, id: FuncId, block: int, count: nat)
    requires
        valid(state),
        id.0 < state.program.functions.len(),
        0 <= block < state.program.function(id).blocks.len(),
        count <= state.program.function(id).blocks[block].insts.len(),
        rewrite_block(state, id, block, count).program.functions.len() <= id_limit(),
    ensures
        ({
            let after = rewrite_block(state, id, block, count);
            let now = after.program.function(id);
            let was = state.program.function(id);
            &&& valid(after)
            &&& grows(state, after, id)
            &&& forall|i: int|
                0 <= i < count ==> !calls_template((#[trigger] now.blocks[block].insts[i]).kind)
            &&& forall|b: int, i: int|
                0 <= b < was.blocks.len() && 0 <= i < was.blocks[b].insts.len() && (b != block || i
                    >= count) ==> (#[trigger] now.blocks[b].insts[i]) == was.blocks[b].insts[i]
        }),
    decreases count,
{
    if count > 0 {
        let before = rewrite_block(state, id, block, (count - 1) as nat);
        block_counts(state, id, block, (count - 1) as nat);
        assert(before.program.function(id).blocks[block].insts.len() == state.program.function(
            id,
        ).blocks[block].insts.len());
        inst_counts(before, id, block, count - 1);
        block_grows(state, id, block, (count - 1) as nat);
        inst_grows(before, id, block, count - 1);
        let after = rewrite_block(state, id, block, count);
        grows_further(state, before, after, id);
        let was = state.program.function(id);
        let middle = before.program.function(id);
        let now = after.program.function(id);
        assert forall|i: int| 0 <= i < count implies !calls_template(
            (#[trigger] now.blocks[block].insts[i]).kind,
        ) by {
            if i < count - 1 {
                assert(now.blocks[block].insts[i] == middle.blocks[block].insts[i]);
            }
        }
        assert forall|b: int, i: int|
            0 <= b < was.blocks.len() && 0 <= i < was.blocks[b].insts.len() && (b != block || i
                >= count) implies (#[trigger] now.blocks[b].insts[i]) == was.blocks[b].insts[i] by {
            assert(middle.blocks[b].insts.len() == was.blocks[b].insts.len());
            assert(middle.blocks[b].insts[i] == was.blocks[b].insts[i]);
        }
    }
}

/// Whether no call of the function has type arguments.
pub open spec fn calls_no_template(function: FunctionView) -> bool {
    forall|b: int, i: int|
        0 <= b < function.blocks.len() && 0 <= i < function.blocks[b].insts.len()
            ==> !calls_template((#[trigger] function.blocks[b].insts[i]).kind)
}

proof fn blocks_grow(state: MonoView, id: FuncId, count: nat)
    requires
        valid(state),
        id.0 < state.program.functions.len(),
        count <= state.program.function(id).blocks.len(),
        rewrite_blocks(state, id, count).program.functions.len() <= id_limit(),
    ensures
        ({
            let after = rewrite_blocks(state, id, count);
            let now = after.program.function(id);
            let was = state.program.function(id);
            &&& valid(after)
            &&& grows(state, after, id)
            &&& forall|b: int, i: int|
                0 <= b < count && 0 <= i < was.blocks[b].insts.len() ==> !calls_template(
                    (#[trigger] now.blocks[b].insts[i]).kind,
                )
            &&& forall|b: int, i: int|
                count <= b < was.blocks.len() && 0 <= i < was.blocks[b].insts.len() ==> (
                #[trigger] now.blocks[b].insts[i]) == was.blocks[b].insts[i]
        }),
    decreases count,
{
    if count > 0 {
        let before = rewrite_blocks(state, id, (count - 1) as nat);
        let after = rewrite_blocks(state, id, count);
        blocks_count(state, id, (count - 1) as nat);
        let size = before.program.function(id).blocks[count - 1].insts.len();
        block_counts(before, id, count - 1, size);
        blocks_grow(state, id, (count - 1) as nat);
        block_grows(before, id, count - 1, size);
        grows_further(state, before, after, id);
        let was = state.program.function(id);
        let middle = before.program.function(id);
        let now = after.program.function(id);
        assert forall|b: int, i: int|
            0 <= b < count && 0 <= i < was.blocks[b].insts.len() implies !calls_template(
            (#[trigger] now.blocks[b].insts[i]).kind,
        ) by {
            assert(middle.blocks[b].insts.len() == was.blocks[b].insts.len());
            if b < count - 1 {
                assert(now.blocks[b].insts[i] == middle.blocks[b].insts[i]);
            }
        }
        assert forall|b: int, i: int|
            count <= b < was.blocks.len() && 0 <= i < was.blocks[b].insts.len() implies (
        #[trigger] now.blocks[b].insts[i]) == was.blocks[b].insts[i] by {
            assert(middle.blocks[b].insts.len() == was.blocks[b].insts.len());
            assert(middle.blocks[b].insts[i] == was.blocks[b].insts[i]);
        }
    }
}

/// Rewriting a function leaves none of its calls with type arguments, and
/// touches no other function but to make instances.
pub proof fn rewriting_settles(state: MonoView, id: FuncId)
    requires
        valid(state),
        id.0 < state.program.functions.len(),
        rewritten(state, id).program.functions.len() <= id_limit(),
    ensures
        valid(rewritten(state, id)),
        grows(state, rewritten(state, id), id),
        calls_no_template(rewritten(state, id).program.function(id)),
{
    let count = state.program.function(id).blocks.len();
    blocks_grow(state, id, count);
    let was = state.program.function(id);
    let now = rewritten(state, id).program.function(id);
    assert forall|b: int, i: int|
        0 <= b < now.blocks.len() && 0 <= i < now.blocks[b].insts.len() implies !calls_template(
        (#[trigger] now.blocks[b].insts[i]).kind,
    ) by {
        assert(now.blocks[b].insts.len() == was.blocks[b].insts.len());
    }
}

/// Whether every function that is code and is one of the first `count`, or was
/// made since, calls no template or waits to be looked at.
pub open spec fn looked_at(state: MonoView, count: nat, total: nat) -> bool {
    forall|i: int|
        0 <= i < state.program.functions.len() && (i < count || total <= i) && (
        #[trigger] state.program.functions[i]).type_params.len() == 0 ==> calls_no_template(
            state.program.functions[i],
        ) || state.pending.contains(FuncId(i as u32))
}

/// Whether the functions of `before` are still there in `after`: templates as
/// they were, and code with at most other names in its calls.
pub open spec fn keeps_functions(before: ProgramView, after: ProgramView) -> bool {
    &&& after == (ProgramView { functions: after.functions, ..before })
    &&& before.functions.len() <= after.functions.len()
    &&& forall|i: int|
        0 <= i < before.functions.len() ==> same_shape(
            before.functions[i],
            #[trigger] after.functions[i],
        )
    &&& forall|i: int|
        0 <= i < before.functions.len() && before.functions[i].type_params.len() != 0 ==> (
        #[trigger] after.functions[i]) == before.functions[i]
}

proof fn keeps_further(first: ProgramView, second: ProgramView, third: ProgramView)
    requires
        keeps_functions(first, second),
        keeps_functions(second, third),
    ensures
        keeps_functions(first, third),
{
    assert forall|i: int| 0 <= i < first.functions.len() implies same_shape(
        first.functions[i],
        #[trigger] third.functions[i],
    ) by {
        assert(same_shape(first.functions[i], second.functions[i]));
        assert(same_shape(second.functions[i], third.functions[i]));
        let a = first.functions[i];
        let b = second.functions[i];
        let c = third.functions[i];
        assert forall|k: int| 0 <= k < a.blocks.len() implies (#[trigger] c.blocks[k]).insts.len()
            == a.blocks[k].insts.len() by {
            assert(b.blocks[k].insts.len() == a.blocks[k].insts.len());
        }
    }
    assert forall|i: int|
        0 <= i < first.functions.len() && first.functions[i].type_params.len() != 0 implies (
    #[trigger] third.functions[i]) == first.functions[i] by {
        assert(second.functions[i] == first.functions[i]);
    }
}

proof fn growth_keeps(before: MonoView, after: MonoView, id: FuncId)
    requires
        id.0 < before.program.functions.len(),
        grows(before, after, id),
        before.program.function(id).type_params.len() == 0,
    ensures
        keeps_functions(before.program, after.program),
{
    assert forall|i: int| 0 <= i < before.program.functions.len() implies same_shape(
        before.program.functions[i],
        #[trigger] after.program.functions[i],
    ) by {
        if i != id.0 {
            assert(after.program.functions[i] == before.program.functions[i]);
        }
    }
}

proof fn growth_keeps_looked_at(
    before: MonoView,
    after: MonoView,
    id: FuncId,
    count: nat,
    total: nat,
)
    requires
        id.0 < before.program.functions.len(),
        after.program.functions.len() <= id_limit(),
        grows(before, after, id),
        total <= before.program.functions.len(),
        calls_no_template(after.program.function(id)),
        forall|i: int|
            0 <= i < before.program.functions.len() && (i < count || total <= i) && i != id.0 && (
            #[trigger] before.program.functions[i]).type_params.len() == 0 ==> calls_no_template(
                before.program.functions[i],
            ) || before.pending.contains(FuncId(i as u32)),
    ensures
        looked_at(after, count, total),
{
    assert forall|i: int|
        0 <= i < after.program.functions.len() && (i < count || total <= i) && (
        #[trigger] after.program.functions[i]).type_params.len() == 0 implies calls_no_template(
        after.program.functions[i],
    ) || after.pending.contains(FuncId(i as u32)) by {
        if i == id.0 {
        } else if i < before.program.functions.len() {
            assert(after.program.functions[i] == before.program.functions[i]);
            if before.pending.contains(FuncId(i as u32)) {
                let k = before.pending.index_of(FuncId(i as u32));
                assert(after.pending[k] == before.pending[k]);
            }
        } else {
            let k = before.pending.len() + (i - before.program.functions.len());
            assert(after.pending[k].0 == i);
            assert(after.pending[k] == FuncId(i as u32));
        }
    }
}

proof fn roots_settle(start: MonoView, count: nat)
    requires
        valid(start),
        count <= start.program.functions.len(),
        rewrite_roots(start, count).program.functions.len() <= id_limit(),
    ensures
        valid(rewrite_roots(start, count)),
        keeps_functions(start.program, rewrite_roots(start, count).program),
        start.pending.len() == 0 ==> looked_at(
            rewrite_roots(start, count),
            count,
            start.program.functions.len(),
        ),
    decreases count,
{
    if count > 0 {
        let before = rewrite_roots(start, (count - 1) as nat);
        let after = rewrite_roots(start, count);
        let id = FuncId((count - 1) as u32);
        let total = start.program.functions.len();
        roots_count(start, (count - 1) as nat);
        if before.program.functions[count - 1].type_params.len() == 0 {
            blocks_count(before, id, before.program.function(id).blocks.len());
            roots_settle(start, (count - 1) as nat);
            rewriting_settles(before, id);
            growth_keeps(before, after, id);
            keeps_further(start.program, before.program, after.program);
            if start.pending.len() == 0 {
                growth_keeps_looked_at(before, after, id, count, total);
            }
        } else {
            roots_settle(start, (count - 1) as nat);
        }
    }
}

proof fn roots_count(start: MonoView, count: nat)
    requires
        count <= start.program.functions.len() <= id_limit(),
    ensures
        rewrite_roots(start, count).program.functions.len() >= start.program.functions.len(),
    decreases count,
{
    if count > 0 {
        roots_count(start, (count - 1) as nat);
        let before = rewrite_roots(start, (count - 1) as nat);
        let id = FuncId((count - 1) as u32);
        blocks_count(before, id, before.program.function(id).blocks.len());
    }
}

proof fn draining_settles(state: MonoView, total: nat)
    requires
        valid(state),
        total <= state.program.functions.len(),
        drained(state).program.functions.len() <= id_limit(),
    ensures
        valid(drained(state)),
        drained(state).pending.len() == 0,
        keeps_functions(state.program, drained(state).program),
        looked_at(state, total, total) ==> looked_at(drained(state), total, total),
    decreases ids_left(state.program.functions.len()), state.pending.len(),
{
    if state.pending.len() > 0 {
        let next = MonoView { pending: state.pending.drop_last(), ..state };
        let id = state.pending.last();
        assert(state.pending[state.pending.len() - 1] == id);
        assert(valid(next)) by {
            assert forall|k: int| 0 <= k < next.pending.len() implies (
            #[trigger] next.pending[k]).0 < next.program.functions.len() && next.program.function(
                next.pending[k],
            ).type_params.len() == 0 by {
                assert(state.pending[k].0 < state.program.functions.len());
            }
        }
        let after = rewritten(next, id);
        blocks_count(next, id, next.program.function(id).blocks.len());
        drained_counts(after);
        rewriting_settles(next, id);
        growth_keeps(next, after, id);
        if looked_at(state, total, total) {
            assert forall|i: int|
                0 <= i < next.program.functions.len() && (i < total || total <= i) && i != id.0 && (
                #[trigger] next.program.functions[i]).type_params.len() == 0 implies
                calls_no_template(next.program.functions[i]) || next.pending.contains(
                FuncId(i as u32),
            ) by {
                if state.pending.contains(FuncId(i as u32)) {
                    let k = state.pending.index_of(FuncId(i as u32));
                    assert(next.pending[k] == state.pending[k]);
                }
            }
            growth_keeps_looked_at(next, after, id, total, total);
        }
        draining_settles(after, total);
        keeps_further(state.program, after.program, drained(after).program);
    }
}

proof fn instance_keeps(state: MonoView, template: FuncId, args: Seq<TyView>, total: nat)
    requires
        valid(state),
        total <= state.program.functions.len(),
        template.0 < state.program.functions.len(),
        instance(state, template, args).0.program.functions.len() <= id_limit(),
    ensures
        valid(instance(state, template, args).0),
        keeps_functions(state.program, instance(state, template, args).0.program),
        looked_at(state, total, total) ==> looked_at(
            instance(state, template, args).0,
            total,
            total,
        ),
        instance(state, template, args).1.0 < instance(
            state,
            template,
            args,
        ).0.program.functions.len(),
{
    instance_grows(state, template, args, template);
    let after = instance(state, template, args).0;
    assert forall|i: int| 0 <= i < state.program.functions.len() implies (
    #[trigger] after.program.functions[i]) == state.program.functions[i] by {}
    if looked_at(state, total, total) {
        assert forall|i: int|
            0 <= i < after.program.functions.len() && (i < total || total <= i) && (
            #[trigger] after.program.functions[i]).type_params.len() == 0 implies calls_no_template(
            after.program.functions[i],
        ) || after.pending.contains(FuncId(i as u32)) by {
            if i < state.program.functions.len() {
                assert(after.program.functions[i] == state.program.functions[i]);
                if state.pending.contains(FuncId(i as u32)) {
                    let k = state.pending.index_of(FuncId(i as u32));
                    assert(after.pending[k] == state.pending[k]);
                }
            } else {
                assert(after.pending[after.pending.len() - 1] == FuncId(i as u32));
            }
        }
    }
}

/// Whether each finalizer is one of the first `functions`.
pub open spec fn finalizers_within(held: Seq<(TyView, FuncId)>, functions: nat) -> bool {
    forall|k: int| 0 <= k < held.len() ==> (#[trigger] held[k]).1.0 < functions
}

proof fn declared_is_there(templates: Seq<(TyView, FuncId)>, id: TypeId, functions: nat)
    requires
        finalizers_within(templates, functions),
    ensures
        declared_finalizer(templates, id) matches Some(found) ==> found.0 < functions,
    decreases templates.len(),
{
    if templates.len() > 0 {
        assert(templates[0].1.0 < functions);
        let rest = templates.skip(1);
        assert forall|k: int| 0 <= k < rest.len() implies (#[trigger] rest[k]).1.0
            < functions by {
            assert(templates[k + 1].1.0 < functions);
        }
        declared_is_there(rest, id, functions);
    }
}

proof fn finalize_keeps(
    state: MonoView,
    templates: Seq<(TyView, FuncId)>,
    done: Seq<(TyView, FuncId)>,
    receiver: TyView,
    total: nat,
)
    requires
        valid(state),
        total <= state.program.functions.len(),
        finalizers_within(templates, state.program.functions.len()),
        finalizers_within(done, state.program.functions.len()),
        finalize(state, templates, done, receiver).0.program.functions.len() <= id_limit(),
    ensures
        ({
            let (after, held) = finalize(state, templates, done, receiver);
            &&& valid(after)
            &&& keeps_functions(state.program, after.program)
            &&& looked_at(state, total, total) ==> looked_at(after, total, total)
            &&& finalizers_within(held, after.program.functions.len())
        }),
{
    let (after, held) = finalize(state, templates, done, receiver);
    if let TyView::Named { id, args } = receiver {
        declared_is_there(templates, id, state.program.functions.len());
        if let Some(template) = declared_finalizer(templates, id) {
            if finalizer_among(done, receiver) is None {
                if state.program.function(template).type_params.len() != 0 {
                    instance_keeps(state, template, args, total);
                }
                assert forall|k: int| 0 <= k < held.len() implies (#[trigger] held[k]).1.0
                    < after.program.functions.len() by {
                    if k < done.len() {
                        assert(done[k].1.0 < state.program.functions.len());
                    }
                }
            }
        }
    }
}

proof fn finalize_counts(
    state: MonoView,
    templates: Seq<(TyView, FuncId)>,
    done: Seq<(TyView, FuncId)>,
    found: Seq<TyView>,
    first: nat,
    last: nat,
)
    requires
        first <= last,
    ensures
        finalize_each(state, templates, done, found, first).0.program.functions.len()
            <= finalize_each(state, templates, done, found, last).0.program.functions.len(),
    decreases last,
{
    if first < last {
        finalize_counts(state, templates, done, found, first, (last - 1) as nat);
    }
}

proof fn finalize_each_keeps(
    state: MonoView,
    templates: Seq<(TyView, FuncId)>,
    done: Seq<(TyView, FuncId)>,
    found: Seq<TyView>,
    count: nat,
    total: nat,
)
    requires
        valid(state),
        total <= state.program.functions.len(),
        finalizers_within(templates, state.program.functions.len()),
        finalizers_within(done, state.program.functions.len()),
        finalize_each(state, templates, done, found, count).0.program.functions.len()
            <= id_limit(),
    ensures
        ({
            let (after, held) = finalize_each(state, templates, done, found, count);
            &&& valid(after)
            &&& keeps_functions(state.program, after.program)
            &&& looked_at(state, total, total) ==> looked_at(after, total, total)
            &&& finalizers_within(held, after.program.functions.len())
            &&& finalizers_within(templates, after.program.functions.len())
        }),
    decreases count,
{
    if count > 0 {
        let before = finalize_each(state, templates, done, found, (count - 1) as nat);
        finalize_counts(state, templates, done, found, (count - 1) as nat, count);
        finalize_each_keeps(state, templates, done, found, (count - 1) as nat, total);
        finalize_keeps(before.0, templates, before.1, found[count - 1], total);
        let after = finalize_each(state, templates, done, found, count);
        keeps_further(state.program, before.0.program, after.0.program);
    }
}

proof fn finalizers_settle(
    state: MonoView,
    templates: Seq<(TyView, FuncId)>,
    done: Seq<(TyView, FuncId)>,
    total: nat,
)
    requires
        valid(state),
        state.pending.len() == 0,
        total <= state.program.functions.len(),
        finalizers_within(templates, state.program.functions.len()),
        finalizers_within(done, state.program.functions.len()),
        finalized(state, templates, done).0.program.functions.len() <= id_limit(),
    ensures
        ({
            let (after, held) = finalized(state, templates, done);
            &&& valid(after)
            &&& after.pending.len() == 0
            &&& keeps_functions(state.program, after.program)
            &&& looked_at(state, total, total) ==> looked_at(after, total, total)
            &&& finalizers_within(held, after.program.functions.len())
        }),
    decreases ids_left(state.program.functions.len()),
{
    let found = receivers(state.program.functions, state.program.functions.len());
    let (after, held) = finalize_each(state, templates, done, found, found.len());
    finalize_counts(state, templates, done, found, 0, found.len());
    if after.program.functions.len() <= state.program.functions.len() {
        finalize_each_keeps(state, templates, done, found, found.len(), total);
        nothing_made(state, templates, done, found, found.len());
    } else if after.program.functions.len() <= id_limit() {
        finalize_each_keeps(state, templates, done, found, found.len(), total);
        let next = drained(after);
        drained_counts(after);
        finalized_counts(next, templates, held);
        draining_settles(after, total);
        keeps_further(state.program, after.program, next.program);
        finalizers_settle(next, templates, held, total);
        keeps_further(state.program, next.program, finalized(state, templates, done).0.program);
    }
}

proof fn nothing_made(
    state: MonoView,
    templates: Seq<(TyView, FuncId)>,
    done: Seq<(TyView, FuncId)>,
    found: Seq<TyView>,
    count: nat,
)
    requires
        finalize_each(state, templates, done, found, count).0.program.functions.len()
            == state.program.functions.len(),
    ensures
        finalize_each(state, templates, done, found, count).0 == state,
    decreases count,
{
    if count > 0 {
        finalize_counts(state, templates, done, found, (count - 1) as nat, count);
        finalize_counts(state, templates, done, found, 0, (count - 1) as nat);
        nothing_made(state, templates, done, found, (count - 1) as nat);
    }
}

/// Giving types their finalizers takes no function away.
pub proof fn finalized_counts(
    state: MonoView,
    templates: Seq<(TyView, FuncId)>,
    done: Seq<(TyView, FuncId)>,
)
    ensures
        finalized(state, templates, done).0.program.functions.len()
            >= state.program.functions.len(),
    decreases ids_left(state.program.functions.len()),
{
    let found = receivers(state.program.functions, state.program.functions.len());
    let (after, held) = finalize_each(state, templates, done, found, found.len());
    finalize_counts(state, templates, done, found, 0, found.len());
    if after.program.functions.len() <= state.program.functions.len()
        || after.program.functions.len() > id_limit() {
    } else {
        drained_counts(after);
        finalized_counts(drained(after), templates, held);
    }
}

/// Whether the program can be made concrete: its calls and finalizers name its
/// own functions, and the instances it comes to have can be told apart.
pub open spec fn can_be_concrete(program: ProgramView) -> bool {
    &&& program.functions.len() <= id_limit()
    &&& program.calls_well_formed()
    &&& finalizers_within(program.finalizers, program.functions.len())
    &&& monomorphized(program).functions.len() <= id_limit()
}

/// No call in code has type arguments afterwards, templates are as they were,
/// and code differs at most in what its calls name.
pub proof fn no_call_keeps_type_arguments(program: ProgramView)
    requires
        can_be_concrete(program),
    ensures
        forall|i: int|
            0 <= i < monomorphized(program).functions.len() && (#[trigger] monomorphized(
                program,
            ).functions[i]).type_params.len() == 0 ==> calls_no_template(
                monomorphized(program).functions[i],
            ),
        keeps_functions(
            program,
            ProgramView { finalizers: program.finalizers, ..monomorphized(program) },
        ),
        monomorphized(program).calls_well_formed(),
        finalizers_within(
            monomorphized(program).finalizers,
            monomorphized(program).functions.len(),
        ),
{
    let start = MonoView { program, made: Seq::empty(), pending: Seq::empty() };
    let total = program.functions.len();
    let roots = rewrite_roots(start, total);
    let worked = drained(roots);
    let (after, done) = finalized(worked, program.finalizers, Seq::empty());
    roots_count(start, total);
    drained_counts(roots);
    finalized_counts(worked, program.finalizers, Seq::empty());
    roots_settle(start, total);
    draining_settles(roots, total);
    keeps_further(program, roots.program, worked.program);
    finalizers_settle(worked, program.finalizers, Seq::empty(), total);
    keeps_further(program, worked.program, after.program);
    assert forall|i: int|
        0 <= i < monomorphized(program).functions.len() && (#[trigger] monomorphized(
            program,
        ).functions[i]).type_params.len() == 0 implies calls_no_template(
        monomorphized(program).functions[i],
    ) by {
        assert(after.program.functions[i].type_params.len() == 0);
    }
    assert(ProgramView { finalizers: program.finalizers, ..monomorphized(program) }
        =~= after.program);
}

/// Asking for an instance twice gives the same one, and makes one at most.
pub proof fn one_instance_for_the_same_arguments(
    state: MonoView,
    template: FuncId,
    args: Seq<TyView>,
)
    ensures
        ({
            let (after, made) = instance(state, template, args);
            instance(after, template, args) == (after, made)
        }),
{
    let (after, made) = instance(state, template, args);
    if made_for(state.made, template, args) is None {
        assert(after.made.last() == (template, args, made));
    }
}

/// Asking for an instance of another template, or with other arguments, does
/// not change what a template and arguments already stand for.
pub proof fn instances_are_kept(
    state: MonoView,
    template: FuncId,
    args: Seq<TyView>,
    other: FuncId,
    other_args: Seq<TyView>,
)
    ensures
        made_for(state.made, other, other_args) matches Some(found) ==> made_for(
            instance(state, template, args).0.made,
            other,
            other_args,
        ) == Some(found),
{
    let after = instance(state, template, args).0;
    if made_for(state.made, template, args) is None {
        assert(after.made.drop_last() =~= state.made);
    }
}

/// An instance whose arguments are not generic, of a template that mentions
/// only its own parameters, has no generic value.
pub proof fn instances_have_concrete_values(
    template: FunctionView,
    args: Seq<TyView>,
    value: int,
)
    requires
        template.type_params.len() <= args.len(),
        forall|i: int| 0 <= i < args.len() ==> !(#[trigger] args[i]).generic(),
        0 <= value < template.values.len(),
        forall|name: Seq<char>| #[trigger]
            template.values[value].mentions(name) ==> template.type_params.contains(name),
    ensures
        !substituted(template, args).values[value].generic(),
{
    crate::ty::filled_types_are_concrete(template.values[value], template.type_params, args);
}

/// The copy of a template takes and gives back what the template does, with
/// the arguments filled in.
pub proof fn instances_have_filled_signatures(template: FunctionView, args: Seq<TyView>, at: int)
    requires
        0 <= at < template.params.len(),
    ensures
        substituted(template, args).type_params.len() == 0,
        substituted(template, args).params.len() == template.params.len(),
        substituted(template, args).params[at] == template.params[at].substitute(
            template.type_params,
            args,
        ),
        substituted(template, args).result == template.result.substitute(
            template.type_params,
            args,
        ),
{
}

/// A type is settled exactly where it is not generic, as long as no parameter
/// stands in a cell of it.
pub proof fn settled_is_not_generic(ty: TyView)
    requires
        forall|name: Seq<char>| !(#[trigger] ty.cell_mentions(name)),
    ensures
        settled_type(ty) <==> !ty.generic(),
    decreases ty, 0nat,
{
    match ty {
        TyView::Parameter(name) => {
            assert(ty.mentions(name));
        },
        TyView::Named { args, .. } => {
            cells_of_members(ty, args);
            all_settled_is_not_generic(args);
        },
        TyView::Builtin { args, .. } => {
            cells_of_members(ty, args);
            all_settled_is_not_generic(args);
        },
        TyView::Tuple(members) => {
            cells_of_members(ty, members);
            all_settled_is_not_generic(members);
        },
        TyView::Union(members) => {
            cells_of_members(ty, members);
            all_settled_is_not_generic(members);
        },
        TyView::Record(fields) => {
            assert forall|i: int| 0 <= i < fields.len() implies (settled_type(
                (#[trigger] fields[i]).1,
            ) <==> !fields[i].1.generic()) by {
                assert forall|name: Seq<char>| !(
                #[trigger] fields[i].1.cell_mentions(name)) by {
                    assert(!ty.cell_mentions(name));
                    assert(!any_field_cell_mentions(fields, name));
                }
                assert(decreases_to!(fields => fields[i]));
                assert(decreases_to!(fields[i] => fields[i].1));
                settled_is_not_generic(fields[i].1);
            }
            if !all_fields_settled(fields) {
                let i = choose|i: int|
                    0 <= i < fields.len() && !settled_type((#[trigger] fields[i]).1);
                let held = fields[i].1;
                let name = choose|name: Seq<char>| held.mentions(name);
                assert(fields[i].1.mentions(name));
                assert(crate::ty::any_field_mentions(fields, name));
                assert(ty.mentions(name));
            } else if ty.generic() {
                let name = choose|name: Seq<char>| ty.mentions(name);
                assert(crate::ty::any_field_mentions(fields, name));
                let i = choose|i: int|
                    0 <= i < fields.len() && (#[trigger] fields[i]).1.mentions(name);
                assert(fields[i].1.generic());
            }
        },
        TyView::Optional(inner) => {
            cells_of_inner(ty, *inner);
            settled_is_not_generic(*inner);
            inner_generic(ty, *inner);
        },
        TyView::Array(inner, _) => {
            cells_of_inner(ty, *inner);
            settled_is_not_generic(*inner);
            inner_generic(ty, *inner);
        },
        TyView::Pointer { target, .. } => {
            cells_of_inner(ty, *target);
            settled_is_not_generic(*target);
            inner_generic(ty, *target);
        },
        TyView::Function { params, result, .. } => {
            cells_of_members(ty, params);
            cells_of_inner(ty, *result);
            all_settled_is_not_generic(params);
            settled_is_not_generic(*result);
            if result.generic() {
                let name = choose|name: Seq<char>| result.mentions(name);
                assert(ty.mentions(name));
            }
            if exists|name: Seq<char>| crate::ty::any_mentions(params, name) {
                let name = choose|name: Seq<char>| crate::ty::any_mentions(params, name);
                assert(ty.mentions(name));
            }
            if ty.generic() {
                let name = choose|name: Seq<char>| ty.mentions(name);
                assert(crate::ty::any_mentions(params, name) || result.mentions(name));
            }
        },
        TyView::Cell(inner) => {
            if ty.generic() {
                let name = choose|name: Seq<char>| ty.mentions(name);
                assert(ty.cell_mentions(name));
            }
        },
        _ => {},
    }
    match ty {
        TyView::Named { args, .. } => {
            members_generic(ty, args);
        },
        TyView::Builtin { args, .. } => {
            members_generic(ty, args);
        },
        TyView::Tuple(members) => {
            members_generic(ty, members);
        },
        TyView::Union(members) => {
            members_generic(ty, members);
        },
        _ => {},
    }
}

proof fn cells_of_members(ty: TyView, members: Seq<TyView>)
    requires
        forall|name: Seq<char>| !(#[trigger] ty.cell_mentions(name)),
        match ty {
            TyView::Named { args, .. } => args == members,
            TyView::Builtin { args, .. } => args == members,
            TyView::Tuple(held) => held == members,
            TyView::Union(held) => held == members,
            TyView::Function { params, .. } => params == members,
            _ => false,
        },
    ensures
        forall|name: Seq<char>| !(#[trigger] any_cell_mentions(members, name)),
{
    assert forall|name: Seq<char>| !(#[trigger] any_cell_mentions(members, name)) by {
        assert(!ty.cell_mentions(name));
    }
}

proof fn cells_of_inner(ty: TyView, inner: TyView)
    requires
        forall|name: Seq<char>| !(#[trigger] ty.cell_mentions(name)),
        match ty {
            TyView::Optional(held) => *held == inner,
            TyView::Array(held, _) => *held == inner,
            TyView::Pointer { target, .. } => *target == inner,
            TyView::Function { result, .. } => *result == inner,
            _ => false,
        },
    ensures
        forall|name: Seq<char>| !(#[trigger] inner.cell_mentions(name)),
{
    assert forall|name: Seq<char>| !(#[trigger] inner.cell_mentions(name)) by {
        assert(!ty.cell_mentions(name));
    }
}

proof fn inner_generic(ty: TyView, inner: TyView)
    requires
        match ty {
            TyView::Optional(held) => *held == inner,
            TyView::Array(held, _) => *held == inner,
            TyView::Pointer { target, .. } => *target == inner,
            _ => false,
        },
    ensures
        ty.generic() <==> inner.generic(),
{
    if inner.generic() {
        let name = choose|name: Seq<char>| inner.mentions(name);
        assert(ty.mentions(name));
    }
    if ty.generic() {
        let name = choose|name: Seq<char>| ty.mentions(name);
        assert(inner.mentions(name));
    }
}

proof fn members_generic(ty: TyView, members: Seq<TyView>)
    requires
        match ty {
            TyView::Named { args, .. } => args == members,
            TyView::Builtin { args, .. } => args == members,
            TyView::Tuple(held) => held == members,
            TyView::Union(held) => held == members,
            _ => false,
        },
    ensures
        ty.generic() <==> exists|name: Seq<char>| crate::ty::any_mentions(members, name),
{
    if exists|name: Seq<char>| crate::ty::any_mentions(members, name) {
        let name = choose|name: Seq<char>| crate::ty::any_mentions(members, name);
        assert(ty.mentions(name));
    }
    if ty.generic() {
        let name = choose|name: Seq<char>| ty.mentions(name);
        assert(crate::ty::any_mentions(members, name));
    }
}

proof fn all_settled_is_not_generic(members: Seq<TyView>)
    requires
        forall|name: Seq<char>| !(#[trigger] any_cell_mentions(members, name)),
    ensures
        all_settled(members) <==> !exists|name: Seq<char>| crate::ty::any_mentions(members, name),
    decreases members, 1nat,
{
    assert forall|i: int| 0 <= i < members.len() implies (settled_type(#[trigger] members[i])
        <==> !members[i].generic()) by {
        assert forall|name: Seq<char>| !(#[trigger] members[i].cell_mentions(name)) by {
            assert(!any_cell_mentions(members, name));
        }
        settled_is_not_generic(members[i]);
    }
    if !all_settled(members) {
        let i = choose|i: int| 0 <= i < members.len() && !settled_type(#[trigger] members[i]);
        let name = choose|name: Seq<char>| members[i].mentions(name);
        assert(crate::ty::any_mentions(members, name));
    } else if exists|name: Seq<char>| crate::ty::any_mentions(members, name) {
        let name = choose|name: Seq<char>| crate::ty::any_mentions(members, name);
        let i = choose|i: int| 0 <= i < members.len() && (#[trigger] members[i]).mentions(name);
        assert(members[i].generic());
    }
}

fn fill_insts(insts: &Vec<Inst>, params: &Vec<String>, args: &Vec<Ty>) -> (filled: Vec<Inst>)
    ensures
        views(filled@) == views(insts@).map_values(
            |inst: InstView|
                InstView { kind: inst.kind.substitute(names(params@), tys(args@)), ..inst },
        ),
{
    let mut filled: Vec<Inst> = Vec::new();
    let mut i: usize = 0;
    while i < insts.len()
        invariant
            i <= insts.len(),
            filled@.len() == i,
            forall|j: int|
                0 <= j < i ==> (#[trigger] filled@[j])@ == (InstView {
                    kind: insts@[j]@.kind.substitute(names(params@), tys(args@)),
                    ..insts@[j]@
                }),
        decreases insts.len() - i,
    {
        let inst = &insts[i];
        filled.push(
            Inst {
                result: inst.result,
                kind: inst.kind.substitute(params, args),
                span: inst.span,
            },
        );
        i += 1;
    }
    assert(views(filled@) =~= views(insts@).map_values(
        |inst: InstView|
            InstView { kind: inst.kind.substitute(names(params@), tys(args@)), ..inst },
    ));
    filled
}

/// Replaces `params` with `args` in every type `function` mentions: the type
/// of each value and slot, and the types written into the instructions.
pub fn substitute_types(function: &mut Function, params: &Vec<String>, args: &Vec<Ty>)
    ensures
        final(function)@ == (FunctionView {
            blocks: old(function)@.blocks.map_values(
                |block: BlockView|
                    BlockView {
                        insts: block.insts.map_values(
                            |inst: InstView|
                                InstView {
                                    kind: inst.kind.substitute(names(params@), tys(args@)),
                                    ..inst
                                },
                        ),
                        ..block
                    },
            ),
            values: substitute_all(old(function)@.values, names(params@), tys(args@)),
            slots: substitute_all(old(function)@.slots, names(params@), tys(args@)),
            ..old(function)@
        }),
{
    let ghost whole = function@;
    function.substitute_values(params, args);
    let mut blocks: Vec<Block> = Vec::new();
    let mut b: usize = 0;
    let ghost expected = whole.blocks.map_values(
        |block: BlockView|
            BlockView {
                insts: block.insts.map_values(
                    |inst: InstView|
                        InstView {
                            kind: inst.kind.substitute(names(params@), tys(args@)),
                            ..inst
                        },
                ),
                ..block
            },
    );
    while b < function.blocks.len()
        invariant
            b <= function.blocks.len(),
            function@.blocks == whole.blocks,
            expected == whole.blocks.map_values(
                |block: BlockView|
                    BlockView {
                        insts: block.insts.map_values(
                            |inst: InstView|
                                InstView {
                                    kind: inst.kind.substitute(names(params@), tys(args@)),
                                    ..inst
                                },
                        ),
                        ..block
                    },
            ),
            blocks@.len() == b,
            forall|c: int| 0 <= c < b ==> (#[trigger] blocks@[c])@ == expected[c],
        decreases function.blocks.len() - b,
    {
        let held = &function.blocks[b];
        let mut block = held.clone();
        block.insts = fill_insts(&held.insts, params, args);
        assert(held@ == whole.blocks[b as int]);
        assert(block@ =~= expected[b as int]);
        blocks.push(block);
        b += 1;
    }
    function.blocks = blocks;
    assert(function@.blocks =~= expected);
}

/// How the arguments of an instance are written.
pub fn spelling(args: &Vec<Ty>) -> (out: String)
    ensures
        out@ == joined(ty_texts(tys(args@)), ", "@),
{
    join(&spellings(args), ", ")
}

/// A copy of `template` with `args` where its type parameters were.
pub fn fill(template: &Function, args: &Vec<Ty>) -> (built: Function)
    ensures
        built@ == substituted(template@, tys(args@)),
{
    let mut built = template.clone();
    let mut name = template.name.clone();
    name.append("<");
    name.append(spelling(args).as_str());
    name.append(">");
    built.name = name;
    built.params = substitute_each(&template.params, &template.type_params, args);
    built.result = template.result.substitute(&template.type_params, args);
    substitute_types(&mut built, &template.type_params, args);
    built.type_params = Vec::new();
    assert(built@ =~= substituted(template@, tys(args@)));
    built
}

/// Which instance was made of which template with which arguments, and which
/// instances still have calls to look at.
struct Mono {
    made: Vec<(FuncId, Vec<Ty>, FuncId)>,
    pending: Vec<FuncId>,
}

/// What each instance was made of.
spec fn made_views(made: Seq<(FuncId, Vec<Ty>, FuncId)>) -> Seq<(FuncId, Seq<TyView>, FuncId)> {
    Seq::new(made.len(), |i: int| (made[i].0, tys(made[i].1@), made[i].2))
}

spec fn state(mono: Mono, program: Program) -> MonoView {
    MonoView { program: program@, made: made_views(mono.made@), pending: mono.pending@ }
}

proof fn block_counts_between(state: MonoView, id: FuncId, block: int, first: nat, last: nat)
    requires
        id.0 < state.program.functions.len(),
        0 <= block < state.program.function(id).blocks.len(),
        first <= last <= state.program.function(id).blocks[block].insts.len(),
    ensures
        rewrite_block(state, id, block, first).program.functions.len() <= rewrite_block(
            state,
            id,
            block,
            last,
        ).program.functions.len(),
    decreases last,
{
    if first < last {
        block_counts_between(state, id, block, first, (last - 1) as nat);
        block_counts(state, id, block, (last - 1) as nat);
        let before = rewrite_block(state, id, block, (last - 1) as nat);
        assert(before.program.function(id).blocks[block].insts.len() == state.program.function(
            id,
        ).blocks[block].insts.len());
        inst_counts(before, id, block, last - 1);
    }
}

proof fn blocks_count_between(state: MonoView, id: FuncId, first: nat, last: nat)
    requires
        id.0 < state.program.functions.len(),
        first <= last <= state.program.function(id).blocks.len(),
    ensures
        rewrite_blocks(state, id, first).program.functions.len() <= rewrite_blocks(
            state,
            id,
            last,
        ).program.functions.len(),
    decreases last,
{
    if first < last {
        blocks_count_between(state, id, first, (last - 1) as nat);
        blocks_count(state, id, (last - 1) as nat);
        let before = rewrite_blocks(state, id, (last - 1) as nat);
        block_counts(
            before,
            id,
            last - 1,
            before.program.function(id).blocks[last - 1].insts.len(),
        );
    }
}

fn template_call(kind: &InstKind) -> (found: Option<(FuncId, &Vec<Ty>, &Vec<Value>)>)
    ensures
        match found {
            Some((callee, type_args, args)) => kind@ == (InstKindView::Call {
                callee,
                type_args: tys(type_args@),
                args: args@,
            }) && type_args@.len() != 0,
            None => !calls_template(kind@),
        },
{
    match kind {
        InstKind::Call { callee, type_args, args } => if type_args.len() != 0 {
            Some((*callee, type_args, args))
        } else {
            None
        },
        _ => None,
    }
}

impl Mono {
    fn find(&self, template: FuncId, args: &Vec<Ty>) -> (found: Option<FuncId>)
        ensures
            found == made_for(made_views(self.made@), template, tys(args@)),
    {
        let ghost made = made_views(self.made@);
        let mut i: usize = self.made.len();
        assert(made.take(i as int) =~= made);
        while i > 0
            invariant
                i <= self.made.len(),
                made == made_views(self.made@),
                made_for(made, template, tys(args@)) == made_for(
                    made.take(i as int),
                    template,
                    tys(args@),
                ),
            decreases i,
        {
            assert(made.take(i as int).drop_last() =~= made.take(i - 1));
            assert(made.take(i as int).last() == made[i - 1]);
            i -= 1;
            if self.made[i].0 == template && same_tys(&self.made[i].1, args) {
                return Some(self.made[i].2);
            }
        }
        None
    }

    /// The instance of `template` for `args`, made if nothing has asked for
    /// it before.
    fn instance(&mut self, program: &mut Program, template: FuncId, args: Vec<Ty>) -> (id: FuncId)
        requires
            template.0 < old(program)@.functions.len(),
            instance(
                state(*old(self), *old(program)),
                template,
                tys(args@),
            ).0.program.functions.len() <= id_limit(),
        ensures
            (state(*final(self), *final(program)), id) == instance(
                state(*old(self), *old(program)),
                template,
                tys(args@),
            ),
    {
        if let Some(found) = self.find(template, &args) {
            return found;
        }
        let ghost made = made_views(self.made@);
        let built = fill(program.function(template), &args);
        let id = program.add_function(built);
        self.made.push((template, args, id));
        assert(made_views(self.made@) =~= made.push((template, tys(args@), id)));
        self.pending.push(id);
        id
    }

    /// Points every generic call in `id` at an instance, making the instance
    /// where this is the first call to ask for it.
    fn rewrite(&mut self, program: &mut Program, id: FuncId)
        requires
            valid(state(*old(self), *old(program))),
            id.0 < old(program)@.functions.len(),
            rewritten(
                state(*old(self), *old(program)),
                id,
            ).program.functions.len() <= id_limit(),
        ensures
            state(*final(self), *final(program)) == rewritten(
                state(*old(self), *old(program)),
                id,
            ),
    {
        let ghost start = state(*self, *program);
        let ghost count = start.program.function(id).blocks.len();
        let mut b: usize = 0;
        while b < program.functions[id.0 as usize].blocks.len()
            invariant
                valid(start),
                id.0 < start.program.functions.len(),
                id.0 < program@.functions.len(),
                count == start.program.function(id).blocks.len(),
                b <= count,
                same_shape(start.program.function(id), program@.function(id)),
                rewrite_blocks(start, id, count).program.functions.len() <= id_limit(),
                state(*self, *program) == rewrite_blocks(start, id, b as nat),
            decreases count - b,
        {
            let ghost earlier = state(*self, *program);
            let ghost size = earlier.program.function(id).blocks[b as int].insts.len();
            proof {
                blocks_count_between(start, id, b as nat, count);
                blocks_count_between(start, id, (b + 1) as nat, count);
                blocks_grow(start, id, b as nat);
            }
            let mut at: usize = 0;
            while at < program.functions[id.0 as usize].blocks[b].insts.len()
                invariant
                    valid(earlier),
                    id.0 < earlier.program.functions.len(),
                    id.0 < program@.functions.len(),
                    b < earlier.program.function(id).blocks.len(),
                    size == earlier.program.function(id).blocks[b as int].insts.len(),
                    at <= size,
                    same_shape(earlier.program.function(id), program@.function(id)),
                    rewrite_block(earlier, id, b as int, size).program.functions.len()
                        <= id_limit(),
                    state(*self, *program) == rewrite_block(earlier, id, b as int, at as nat),
                decreases size - at,
            {
                let ghost before = state(*self, *program);
                proof {
                    assert(program@.function(id).blocks[b as int].insts.len() == size);
                    block_counts_between(earlier, id, b as int, at as nat, size);
                    block_counts_between(earlier, id, b as int, (at + 1) as nat, size);
                    block_grows(earlier, id, b as int, at as nat);
                    inst_counts(before, id, b as int, at as int);
                    assert(before.program.functions[id.0 as int].calls_within(
                        before.program.functions.len(),
                    ));
                    assert(before.program.function(id).blocks[b as int].insts[at as int].kind.func()
                        matches Some(func) ==> func.0 < before.program.functions.len());
                }
                let inst = &program.functions[id.0 as usize].blocks[b].insts[at];
                assert(inst@ == before.program.function(id).blocks[b as int].insts[at as int]);
                if let Some((callee, type_args, args)) = template_call(&inst.kind) {
                    let filled = clone_tys(type_args);
                    let passed = crate::inst::clone_values(args);
                    let result = inst.result;
                    let span = inst.span;
                    assert(tys(type_args@).len() != 0);
                    let made = self.instance(program, callee, filled);
                    let ghost middle = program@;
                    let unfilled: Vec<Ty> = Vec::new();
                    assert(tys(unfilled@) =~= Seq::empty());
                    let call = Inst {
                        result,
                        kind: InstKind::Call { callee: made, type_args: unfilled, args: passed },
                        span,
                    };
                    proof {
                        instance_grows(before, callee, tys(filled@), id);
                    }
                    set_inst(program.function_mut(id), b, at, call);
                    proof {
                        assert(with_callee(
                            middle.function(id),
                            b as int,
                            at as int,
                            made,
                        ).blocks =~= program@.function(id).blocks);
                        assert(program@ =~= middle.with_function(
                            id,
                            with_callee(middle.function(id), b as int, at as int, made),
                        ));
                    }
                } else {
                    proof {
                        assert(rewrite_inst(before, id, b as int, at as int) == before);
                    }
                }
                proof {
                    let was = earlier.program.function(id);
                    let middle = before.program.function(id);
                    let now = program@.function(id);
                    assert forall|c: int| 0 <= c < was.blocks.len() implies (
                    #[trigger] now.blocks[c]).insts.len() == was.blocks[c].insts.len() by {
                        assert(middle.blocks[c].insts.len() == was.blocks[c].insts.len());
                        assert(same_shape(middle, now));
                    }
                }
                at += 1;
            }
            proof {
                let was = start.program.function(id);
                let middle = earlier.program.function(id);
                let now = program@.function(id);
                assert(middle.blocks[b as int].insts.len() == now.blocks[b as int].insts.len());
                assert forall|c: int| 0 <= c < was.blocks.len() implies (
                #[trigger] now.blocks[c]).insts.len() == was.blocks[c].insts.len() by {
                    assert(middle.blocks[c].insts.len() == was.blocks[c].insts.len());
                }
            }
            b += 1;
        }
    }

    fn drain(&mut self, program: &mut Program)
        requires
            valid(state(*old(self), *old(program))),
            drained(state(*old(self), *old(program))).program.functions.len() <= id_limit(),
        ensures
            state(*final(self), *final(program)) == drained(state(*old(self), *old(program))),
    {
        let ghost start = state(*self, *program);
        while self.pending.len() > 0
            invariant
                valid(state(*self, *program)),
                drained(state(*self, *program)) == drained(start),
                drained(start).program.functions.len() <= id_limit(),
            decreases ids_left(program@.functions.len()), self.pending@.len(),
        {
            let ghost before = state(*self, *program);
            assert(before.pending[before.pending.len() - 1] == before.pending.last());
            let id = self.pending[self.pending.len() - 1];
            let _ = self.pending.pop();
            proof {
                let next = MonoView { pending: before.pending.drop_last(), ..before };
                assert(state(*self, *program) == next);
                assert forall|k: int| 0 <= k < next.pending.len() implies (
                #[trigger] next.pending[k]).0 < next.program.functions.len()
                    && next.program.function(next.pending[k]).type_params.len() == 0 by {
                    assert(before.pending[k].0 < before.program.functions.len());
                }
                blocks_count(next, id, next.program.function(id).blocks.len());
                drained_counts(rewritten(next, id));
                rewriting_settles(next, id);
            }
            self.rewrite(program, id);
        }
    }
}

fn set_inst(function: &mut Function, block: usize, at: usize, inst: Inst)
    requires
        block < old(function)@.blocks.len(),
        at < old(function)@.blocks[block as int].insts.len(),
    ensures
        final(function)@ == (FunctionView {
            blocks: old(function)@.blocks.update(
                block as int,
                BlockView {
                    insts: old(function)@.blocks[block as int].insts.update(at as int, inst@),
                    ..old(function)@.blocks[block as int]
                },
            ),
            ..old(function)@
        }),
{
    let ghost whole = function@;
    let ghost insts = function.blocks@[block as int].insts@;
    function.blocks[block].insts.set(at, inst);
    assert(views(function.blocks@[block as int].insts@) =~= views(insts).update(at as int, inst@));
    assert(function@.blocks =~= whole.blocks.update(
        block as int,
        BlockView {
            insts: whole.blocks[block as int].insts.update(at as int, inst@),
            ..whole.blocks[block as int]
        },
    ));
}

/// Whether a type mentions no parameter, looking inside everything but cells.
pub fn concrete(ty: &Ty) -> (settled: bool)
    ensures
        settled == settled_type(ty@),
    decreases ty,
{
    match ty {
        Ty::Parameter(_) => false,
        Ty::Named { args, .. } => all_concrete(args),
        Ty::Builtin { args, .. } => all_concrete(args),
        Ty::Tuple(members) => all_concrete(members),
        Ty::Union(members) => all_concrete(members),
        Ty::Record(fields) => all_fields_concrete(fields),
        Ty::Optional(held) => concrete(held),
        Ty::Array(held, _) => concrete(held),
        Ty::Pointer { target, .. } => concrete(target),
        Ty::Function { params, result, .. } => all_concrete(params) && concrete(result),
        _ => true,
    }
}

fn all_concrete(types: &Vec<Ty>) -> (settled: bool)
    ensures
        settled == all_settled(tys(types@)),
    decreases types,
{
    let mut i: usize = 0;
    while i < types.len()
        invariant
            i <= types.len(),
            forall|j: int| 0 <= j < i ==> settled_type(#[trigger] tys(types@)[j]),
        decreases types.len() - i,
    {
        assert(tys(types@)[i as int] == types@[i as int].model());
        if !concrete(&types[i]) {
            return false;
        }
        i += 1;
    }
    true
}

fn all_fields_concrete(fields: &Vec<(String, Ty)>) -> (settled: bool)
    ensures
        settled == all_fields_settled(named_tys(fields@)),
    decreases fields,
{
    let mut i: usize = 0;
    while i < fields.len()
        invariant
            i <= fields.len(),
            forall|j: int| 0 <= j < i ==> settled_type((#[trigger] named_tys(fields@)[j]).1),
        decreases fields.len() - i,
    {
        assert(decreases_to!(fields => fields@));
        assert(decreases_to!(fields@ => fields@[i as int]));
        assert(decreases_to!(fields@[i as int] => fields@[i as int].1));
        assert(named_tys(fields@)[i as int].1 == fields@[i as int].1.model());
        if !concrete(&fields[i].1) {
            return false;
        }
        i += 1;
    }
    true
}

fn contains_ty(found: &Vec<Ty>, ty: &Ty) -> (contained: bool)
    ensures
        contained == tys(found@).contains(ty@),
{
    let mut i: usize = 0;
    while i < found.len()
        invariant
            i <= found.len(),
            forall|j: int| 0 <= j < i ==> (#[trigger] tys(found@)[j]) != ty@,
        decreases found.len() - i,
    {
        assert(tys(found@)[i as int] == found@[i as int]@);
        if found[i] == *ty {
            return true;
        }
        i += 1;
    }
    assert(tys(found@).len() == found@.len());
    false
}

fn find_receivers(program: &Program) -> (found: Vec<Ty>)
    ensures
        tys(found@) == receivers(program@.functions, program@.functions.len()),
{
    let mut found: Vec<Ty> = Vec::new();
    let mut f: usize = 0;
    assert(tys(found@) =~= Seq::empty());
    while f < program.functions.len()
        invariant
            f <= program.functions.len(),
            tys(found@) == receivers(program@.functions, f as nat),
        decreases program.functions.len() - f,
    {
        let function = &program.functions[f];
        assert(program@.functions[f as int] == function@);
        let ghost before = tys(found@);
        if !function.is_template() {
            let mut i: usize = 0;
            while i < function.values.len()
                invariant
                    i <= function.values.len(),
                    tys(found@) == with_receivers(before, function@.values, i as nat),
                decreases function.values.len() - i,
            {
                let ty = &function.values[i];
                let ghost earlier = found@;
                assert(function@.values[i as int] == ty@);
                if matches!(ty, Ty::Named { .. }) && concrete(ty) && !contains_ty(&found, ty) {
                    found.push(ty.clone());
                    assert(tys(found@) =~= tys(earlier).push(ty@));
                }
                i += 1;
            }
        }
        f += 1;
    }
    found
}

fn find_declared(templates: &Vec<(Ty, FuncId)>, id: TypeId) -> (found: Option<FuncId>)
    ensures
        found == declared_finalizer(finalizer_views(templates@), id),
{
    let ghost held = finalizer_views(templates@);
    let mut i: usize = 0;
    assert(held.skip(0) =~= held);
    while i < templates.len()
        invariant
            i <= templates.len(),
            held == finalizer_views(templates@),
            declared_finalizer(held, id) == declared_finalizer(held.skip(i as int), id),
        decreases templates.len() - i,
    {
        assert(held.skip(i as int)[0] == held[i as int]);
        assert(held.skip(i as int).skip(1) =~= held.skip(i + 1));
        if let Ty::Named { id: candidate, .. } = &templates[i].0 {
            if *candidate == id {
                return Some(templates[i].1);
            }
        }
        i += 1;
    }
    None
}

fn find_finalizer(done: &Vec<(Ty, FuncId)>, ty: &Ty) -> (found: bool)
    ensures
        found == (finalizer_among(finalizer_views(done@), ty@) is Some),
{
    let ghost held = finalizer_views(done@);
    let mut i: usize = 0;
    assert(held.skip(0) =~= held);
    while i < done.len()
        invariant
            i <= done.len(),
            held == finalizer_views(done@),
            finalizer_among(held, ty@) == finalizer_among(held.skip(i as int), ty@),
        decreases done.len() - i,
    {
        assert(held.skip(i as int)[0] == held[i as int]);
        assert(held.skip(i as int).skip(1) =~= held.skip(i + 1));
        if done[i].0 == *ty {
            return true;
        }
        i += 1;
    }
    false
}

impl Mono {
    fn finalize(
        &mut self,
        program: &mut Program,
        templates: &Vec<(Ty, FuncId)>,
        done: &mut Vec<(Ty, FuncId)>,
        receiver: &Ty,
    )
        requires
            valid(state(*old(self), *old(program))),
            finalizers_within(finalizer_views(templates@), old(program)@.functions.len()),
            finalize(
                state(*old(self), *old(program)),
                finalizer_views(templates@),
                finalizer_views(old(done)@),
                receiver@,
            ).0.program.functions.len() <= id_limit(),
        ensures
            (state(*final(self), *final(program)), finalizer_views(final(done)@)) == finalize(
                state(*old(self), *old(program)),
                finalizer_views(templates@),
                finalizer_views(old(done)@),
                receiver@,
            ),
    {
        if let Ty::Named { id, args } = receiver {
            proof {
                declared_is_there(
                    finalizer_views(templates@),
                    *id,
                    program@.functions.len(),
                );
            }
            if let Some(template) = find_declared(templates, *id) {
                if find_finalizer(done, receiver) {
                    return;
                }
                let ghost held = finalizer_views(done@);
                let function = if program.function(template).is_template() {
                    self.instance(program, template, clone_tys(args))
                } else {
                    template
                };
                done.push((receiver.clone(), function));
                assert(finalizer_views(done@) =~= held.push((receiver@, function)));
            }
        }
    }

    fn finalizers(&mut self, program: &mut Program)
        requires
            valid(state(*old(self), *old(program))),
            old(self).pending@.len() == 0,
            finalizers_within(old(program)@.finalizers, old(program)@.functions.len()),
            finalized(
                state(*old(self), *old(program)),
                old(program)@.finalizers,
                Seq::empty(),
            ).0.program.functions.len() <= id_limit(),
        ensures
            ({
                let (after, done) = finalized(
                    state(*old(self), *old(program)),
                    old(program)@.finalizers,
                    Seq::empty(),
                );
                final(program)@ == (ProgramView { finalizers: done, ..after.program })
            }),
    {
        let templates = crate::program::clone_finalizers(program.finalizers());
        let ghost held = finalizer_views(templates@);
        let mut done: Vec<(Ty, FuncId)> = Vec::new();
        assert(finalizer_views(done@) =~= Seq::empty());
        let ghost start = state(*self, *program);
        let ghost expected = finalized(start, held, Seq::empty());
        let mut more = true;
        while more
            invariant
                held == finalizer_views(templates@),
                expected.0.program.functions.len() <= id_limit(),
                valid(state(*self, *program)),
                more ==> self.pending@.len() == 0 && finalizers_within(
                    held,
                    program@.functions.len(),
                ) && finalizers_within(finalizer_views(done@), program@.functions.len())
                    && finalized(state(*self, *program), held, finalizer_views(done@)) == expected,
                !more ==> (state(*self, *program), finalizer_views(done@)) == expected,
            decreases (if more { 1int } else { 0int }), ids_left(program@.functions.len()),
        {
            let ghost round = state(*self, *program);
            let ghost had = finalizer_views(done@);
            let ghost types = receivers(round.program.functions, round.program.functions.len());
            let ghost reached = finalize_each(round, held, had, types, types.len());
            let before: usize = program.functions.len();
            let found = find_receivers(program);
            proof {
                assert(types.len() == found@.len());
                finalize_counts(round, held, had, types, 0, types.len());
                if reached.0.program.functions.len() > round.program.functions.len()
                    && reached.0.program.functions.len() <= id_limit() {
                    drained_counts(reached.0);
                    finalized_counts(drained(reached.0), held, reached.1);
                }
            }
            let mut i: usize = 0;
            while i < found.len()
                invariant
                    i <= found.len(),
                    held == finalizer_views(templates@),
                    types == tys(found@),
                    types.len() == found@.len(),
                    valid(round),
                    finalizers_within(held, round.program.functions.len()),
                    finalizers_within(had, round.program.functions.len()),
                    reached == finalize_each(round, held, had, types, types.len()),
                    reached.0.program.functions.len() <= id_limit(),
                    (state(*self, *program), finalizer_views(done@)) == finalize_each(
                        round,
                        held,
                        had,
                        types,
                        i as nat,
                    ),
                decreases found.len() - i,
            {
                proof {
                    finalize_counts(round, held, had, types, i as nat, types.len());
                    finalize_counts(round, held, had, types, (i + 1) as nat, types.len());
                    finalize_each_keeps(round, held, had, types, i as nat, 0);
                    assert(types[i as int] == found@[i as int]@);
                }
                self.finalize(program, &templates, &mut done, &found[i]);
                i += 1;
            }
            proof {
                finalize_each_keeps(round, held, had, types, types.len(), 0);
            }
            if program.functions.len() == before {
                more = false;
            } else {
                proof {
                    draining_settles(reached.0, 0);
                }
                self.drain(program);
            }
        }
        program.replace_finalizers(done);
    }
}

/// Replaces every call to a generic function with a call to an instance of it.
pub fn run(program: &mut Program)
    requires
        can_be_concrete(old(program)@),
    ensures
        final(program)@ == monomorphized(old(program)@),
{
    let ghost original = program@;
    let ghost start = MonoView { program: original, made: Seq::empty(), pending: Seq::empty() };
    let count: usize = program.functions.len();
    let mut mono = Mono { made: Vec::new(), pending: Vec::new() };
    assert(state(mono, *program) == start) by {
        assert(made_views(mono.made@) =~= Seq::empty());
        assert(mono.pending@ =~= Seq::empty());
    }
    proof {
        let roots = rewrite_roots(start, count as nat);
        drained_counts(roots);
        finalized_counts(drained(roots), original.finalizers, Seq::empty());
    }
    let mut i: usize = 0;
    while i < count
        invariant
            i <= count == original.functions.len() <= id_limit(),
            start == (MonoView { program: original, made: Seq::empty(), pending: Seq::empty() }),
            valid(start),
            state(mono, *program) == rewrite_roots(start, i as nat),
            rewrite_roots(start, count as nat).program.functions.len() <= id_limit(),
        decreases count - i,
    {
        proof {
            roots_count_between(start, i as nat, count as nat);
            roots_count_between(start, (i + 1) as nat, count as nat);
            roots_settle(start, i as nat);
            roots_count(start, i as nat);
        }
        if !program.functions[i].is_template() {
            mono.rewrite(program, FuncId(i as u32));
        }
        i += 1;
    }
    proof {
        roots_settle(start, count as nat);
        roots_count(start, count as nat);
        draining_settles(rewrite_roots(start, count as nat), count as nat);
    }
    mono.drain(program);
    mono.finalizers(program);
}

proof fn roots_count_between(start: MonoView, first: nat, last: nat)
    requires
        first <= last <= start.program.functions.len() <= id_limit(),
    ensures
        rewrite_roots(start, first).program.functions.len() <= rewrite_roots(
            start,
            last,
        ).program.functions.len(),
    decreases last,
{
    if first < last {
        roots_count_between(start, first, (last - 1) as nat);
        roots_count(start, (last - 1) as nat);
        let before = rewrite_roots(start, (last - 1) as nat);
        let id = FuncId((last - 1) as u32);
        blocks_count(before, id, before.program.function(id).blocks.len());
    }
}

} // verus!
