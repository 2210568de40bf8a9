//! Tasks: asynchronous functions as state machines over a FIFO scheduler.

pub mod builder;
pub mod cancels;
pub mod declare;
pub mod entry;
pub mod frame;
pub mod laws;
pub mod live;
pub mod machine;
pub mod runtime;
pub mod scopes;
pub mod spill;
pub mod split;
pub mod transform;

use vstd::prelude::*;

use crate::lower::{Gap, GapView};
use crate::program::{id_limit, views, FuncId, Function, FunctionView, Program, ProgramView};
use crate::ty::{tys, Builtin, Ty, TyView, TypeId};

use cancels::{cancels_called, cancels_expanded, expand_cancels};
use declare::{cancelled_type, declare, declared, runtime_of};
use entry::{can_wrap, entry_wrapped, wrap_entry};
use runtime::Runtime;
use transform::{can_transform, hindrance, transform, transformed};

verus! {

/// The closure that advances a task and says whether it completed. This and
/// the following are the fields of a task, in the order [`task_fields`] lists
/// them.
pub const POLL: u32 = 0;

/// What it completed with.
pub const COMPLETION: u32 = 1;

/// Whether it started.
pub const STARTED: u32 = 2;

/// What it was asked to stop with.
pub const REQUEST: u32 = 3;

/// Whether that was delivered.
pub const DELIVERED: u32 = 4;

/// Whether it is queued.
pub const QUEUED: u32 = 5;

/// The task it waits for.
pub const WAITING: u32 = 6;

/// The tasks waiting for it.
pub const WAITERS: u32 = 7;

/// The children its implicit scope owns.
pub const CHILDREN: u32 = 8;

/// The scheduler it runs on.
pub const SCHEDULER: u32 = 9;

/// Its owner.
pub const OWNER: u32 = 10;

/// Failed children, in completion order.
pub const FAILURES: u32 = 11;

/// Whether an await observed its completion.
pub const OBSERVED: u32 = 12;

/// The scope it starts tasks in. This and the next come after what
/// [`task_fields`] lists.
pub const ACTIVE_SCOPE: u32 = 13;

/// The scope of its whole body.
pub const ROOT_SCOPE: u32 = 14;

/// The tasks a scope owns. This and the following are the fields of a scope.
pub const SCOPE_CHILDREN: u32 = 0;

/// Those that failed, in completion order.
pub const SCOPE_FAILURES: u32 = 1;

/// What the scope was asked to stop with.
pub const SCOPE_REQUEST: u32 = 2;

/// The scope around it.
pub const SCOPE_PARENT: u32 = 3;

/// Whether requests on the task leave it alone.
pub const SCOPE_SHIELDED: u32 = 4;

/// A list of one type.
pub fn one_ty(ty: Ty) -> (list: Vec<Ty>)
    ensures
        tys(list@) == seq![ty@],
{
    let mut list: Vec<Ty> = Vec::new();
    list.push(ty);
    assert(tys(list@) =~= seq![ty@]);
    list
}

/// A list of two types.
pub fn two_tys(first: Ty, second: Ty) -> (list: Vec<Ty>)
    ensures
        tys(list@) == seq![first@, second@],
{
    let mut list: Vec<Ty> = Vec::new();
    list.push(first);
    list.push(second);
    assert(tys(list@) =~= seq![first@, second@]);
    list
}

/// `T?`.
pub open spec fn optional_of_view(ty: TyView) -> TyView {
    TyView::Optional(Box::new(ty))
}

/// `T?`.
pub fn optional_of(ty: Ty) -> (optional: Ty)
    ensures
        optional@ == optional_of_view(ty@),
{
    Ty::Optional(Box::new(ty))
}

/// What an asynchronous function whose result is `ty` completes with.
#[verifier::opaque]
pub open spec fn result_of_view(ty: TyView) -> TyView {
    TyView::Builtin { kind: Builtin::Result, args: seq![ty, TyView::Dynamic] }
}

/// What an asynchronous function whose result is `ty` completes with.
pub fn result_of(ty: Ty) -> (result: Ty)
    ensures
        result@ == result_of_view(ty@),
{
    proof {
        reveal(result_of_view);
    }
    Ty::Builtin { kind: Builtin::Result, args: two_tys(ty, Ty::Dynamic) }
}

/// A declared type without arguments.
#[verifier::opaque]
pub open spec fn named_view(id: TypeId) -> TyView {
    TyView::Named { id, args: Seq::empty() }
}

/// A declared type without arguments.
pub fn named(id: TypeId) -> (ty: Ty)
    ensures
        ty@ == named_view(id),
{
    proof {
        reveal(named_view);
    }
    let args: Vec<Ty> = Vec::new();
    assert(tys(args@) =~= Seq::empty());
    Ty::Named { id, args }
}

/// A handle on a task whose result is not needed.
#[verifier::opaque]
pub open spec fn erased_task_view() -> TyView {
    TyView::Builtin { kind: Builtin::Task, args: seq![TyView::Unit] }
}

/// A handle on a task whose result is not needed.
pub fn erased_task() -> (ty: Ty)
    ensures
        ty@ == erased_task_view(),
{
    proof {
        reveal(erased_task_view);
    }
    Ty::Builtin { kind: Builtin::Task, args: one_ty(Ty::Unit) }
}

/// A scope.
#[verifier::opaque]
pub open spec fn scope_type_view() -> TyView {
    TyView::Builtin { kind: Builtin::Scope, args: Seq::empty() }
}

/// A scope.
pub fn scope_type() -> (ty: Ty)
    ensures
        ty@ == scope_type_view(),
{
    proof {
        reveal(scope_type_view);
    }
    let args: Vec<Ty> = Vec::new();
    assert(tys(args@) =~= Seq::empty());
    Ty::Builtin { kind: Builtin::Scope, args }
}

/// `List<dynamic>`.
#[verifier::opaque]
pub open spec fn list_of_dynamic_view() -> TyView {
    TyView::Builtin { kind: Builtin::List, args: seq![TyView::Dynamic] }
}

/// `List<dynamic>`.
pub fn list_of_dynamic() -> (ty: Ty)
    ensures
        ty@ == list_of_dynamic_view(),
{
    proof {
        reveal(list_of_dynamic_view);
    }
    Ty::Builtin { kind: Builtin::List, args: one_ty(Ty::Dynamic) }
}

/// The closure that advances a task.
#[verifier::opaque]
pub open spec fn poll_closure_view() -> TyView {
    TyView::Function {
        asynchronous: false,
        params: Seq::empty(),
        result: Box::new(TyView::Bool),
    }
}

/// The closure that advances a task.
pub fn poll_closure() -> (ty: Ty)
    ensures
        ty@ == poll_closure_view(),
{
    proof {
        reveal(poll_closure_view);
    }
    let params: Vec<Ty> = Vec::new();
    assert(tys(params@) =~= Seq::empty());
    let result = Ty::Bool;
    assert(result@ == TyView::Bool);
    Ty::Function { asynchronous: false, params, result: Box::new(result) }
}

/// What a `Task<T>` holds, field by field.
pub open spec fn task_fields_view(result: TyView) -> Seq<TyView> {
    seq![
        poll_closure_view(),
        optional_of_view(result_of_view(result)),
        TyView::Bool,
        optional_of_view(TyView::Dynamic),
        TyView::Bool,
        TyView::Bool,
        optional_of_view(TyView::Dynamic),
        list_of_dynamic_view(),
        list_of_dynamic_view(),
        TyView::Dynamic,
        optional_of_view(TyView::Dynamic),
        list_of_dynamic_view(),
        TyView::Bool,
    ]
}

/// What a `Task<T>` holds: the closure that advances it and says whether it
/// completed, its completion, whether it started, its cancellation request
/// and whether that was delivered, whether it is queued, the task it waits
/// for, the tasks waiting for it, the children its implicit scope owns, and
/// the scheduler it runs on, its owner, failed children in completion order,
/// and whether an await observed its completion. Only the completion depends
/// on `T`, so a handle can be read as `Task<()>` where `T` is not needed.
#[must_use]
pub fn task_fields(result: &Ty) -> (fields: Vec<Ty>)
    ensures
        tys(fields@) == task_fields_view(result@),
{
    let mut fields: Vec<Ty> = Vec::new();
    fields.push(poll_closure());
    fields.push(optional_of(result_of(result.clone())));
    fields.push(Ty::Bool);
    fields.push(optional_of(Ty::Dynamic));
    fields.push(Ty::Bool);
    fields.push(Ty::Bool);
    fields.push(optional_of(Ty::Dynamic));
    fields.push(list_of_dynamic());
    fields.push(list_of_dynamic());
    fields.push(Ty::Dynamic);
    fields.push(optional_of(Ty::Dynamic));
    fields.push(list_of_dynamic());
    fields.push(Ty::Bool);
    assert(tys(fields@) =~= task_fields_view(result@));
    fields
}

/// Two handles differ in their completion alone, so that one can be read as a
/// handle on a task of another result wherever the completion is not read.
pub proof fn only_the_completion_depends_on_the_result(left: TyView, right: TyView, field: int)
    requires
        0 <= field < task_fields_view(left).len(),
        field != COMPLETION,
    ensures
        task_fields_view(left).len() == task_fields_view(right).len(),
        task_fields_view(left)[field] == task_fields_view(right)[field],
{
}

/// Whether a function is to become a task: one that is asynchronous, is no
/// template and has a body.
pub open spec fn becomes_task(function: FunctionView) -> bool {
    function.asynchronous && function.type_params.len() == 0 && function.external is None
}

/// Which of the first `count` functions are to become tasks.
pub open spec fn task_functions(functions: Seq<FunctionView>, count: nat) -> Seq<FuncId>
    decreases count,
{
    if count == 0 {
        Seq::empty()
    } else {
        let before = task_functions(functions, (count - 1) as nat);
        if becomes_task(functions[count - 1]) {
            before.push(FuncId((count - 1) as u32))
        } else {
            before
        }
    }
}

/// The program with the first `count` of those turned into tasks.
pub open spec fn all_transformed(
    program: ProgramView,
    runtime: Runtime,
    ids: Seq<FuncId>,
    count: nat,
) -> ProgramView
    decreases count,
{
    if count == 0 {
        program
    } else {
        transformed(
            all_transformed(program, runtime, ids, (count - 1) as nat),
            runtime,
            ids[count - 1],
            cancelled_type(program),
        )
    }
}

/// What stood in the way of the first `count`.
pub open spec fn hindrances(
    program: ProgramView,
    runtime: Runtime,
    ids: Seq<FuncId>,
    count: nat,
) -> Seq<GapView>
    decreases count,
{
    if count == 0 {
        Seq::empty()
    } else {
        let before = hindrances(program, runtime, ids, (count - 1) as nat);
        let held = all_transformed(program, runtime, ids, (count - 1) as nat);
        match hindrance(held.function(ids[count - 1])) {
            Some(gap) => before.push(gap),
            None => before,
        }
    }
}

/// The program with its asynchronous functions as tasks, and what stood in the
/// way. One without any stays as it is.
pub open spec fn scheduled(program: ProgramView) -> (ProgramView, Seq<GapView>) {
    let ids = task_functions(program.functions, program.functions.len());
    if ids.len() == 0 {
        (program, Seq::empty())
    } else {
        let runtime = runtime_of(program);
        let held = declared(program, program.function(ids[0]).span);
        (
            entry_wrapped(
                cancels_expanded(all_transformed(held, runtime, ids, ids.len()), runtime.cancel),
                runtime,
            ),
            hindrances(held, runtime, ids, ids.len()),
        )
    }
}

/// Whether every function that is to become a task can, one after another, and
/// everything that is written can be told apart.
pub open spec fn can_schedule(program: ProgramView) -> bool {
    let ids = task_functions(program.functions, program.functions.len());
    let runtime = runtime_of(program);
    let held = declared(program, program.function(ids[0]).span);
    let after = all_transformed(held, runtime, ids, ids.len());
    &&& program.functions.len() <= id_limit()
    &&& ids.len() > 0 ==> {
        &&& program.types.len() < id_limit()
        &&& program.functions.len() + 10 <= id_limit()
        &&& forall|k: nat|
            k < ids.len() ==> can_transform(
                #[trigger] all_transformed(held, runtime, ids, k),
                runtime,
                ids[k as int],
                cancelled_type(held),
            )
        &&& forall|i: int|
            0 <= i < after.functions.len() ==> cancels_called(
                #[trigger] after.functions[i],
                runtime.cancel,
            ).values.len() <= id_limit()
        &&& can_wrap(cancels_expanded(after, runtime.cancel))
    }
}

/// Every function that is to become a task is in the program.
pub proof fn task_functions_are_there(functions: Seq<FunctionView>, count: nat, at: int)
    requires
        count <= functions.len() <= id_limit(),
        0 <= at < task_functions(functions, count).len(),
    ensures
        task_functions(functions, count)[at].0 < count,
        becomes_task(functions[task_functions(functions, count)[at].0 as int]),
    decreases count,
{
    if count > 0 {
        let before = task_functions(functions, (count - 1) as nat);
        if at < before.len() {
            task_functions_are_there(functions, (count - 1) as nat, at);
        }
    }
}

proof fn transforming_adds(program: ProgramView, runtime: Runtime, ids: Seq<FuncId>, count: nat)
    requires
        count <= ids.len(),
        forall|k: int| 0 <= k < ids.len() ==> (#[trigger] ids[k]).0 < program.functions.len(),
    ensures
        program.functions.len() <= all_transformed(
            program,
            runtime,
            ids,
            count,
        ).functions.len(),
    decreases count,
{
    if count > 0 {
        transforming_adds(program, runtime, ids, (count - 1) as nat);
    }
}

/// A program without asynchronous functions needs no scheduler.
pub proof fn nothing_to_schedule(program: ProgramView)
    requires
        forall|i: int|
            0 <= i < program.functions.len() ==> !becomes_task(#[trigger] program.functions[i]),
    ensures
        scheduled(program) == (program, Seq::<GapView>::empty()),
{
    no_task_functions(program.functions, program.functions.len());
}

proof fn no_task_functions(functions: Seq<FunctionView>, count: nat)
    requires
        count <= functions.len(),
        forall|i: int| 0 <= i < functions.len() ==> !becomes_task(#[trigger] functions[i]),
    ensures
        task_functions(functions, count).len() == 0,
    decreases count,
{
    if count > 0 {
        no_task_functions(functions, (count - 1) as nat);
    }
}

fn find_task_functions(functions: &Vec<Function>) -> (ids: Vec<FuncId>)
    requires
        functions@.len() <= id_limit(),
    ensures
        ids@ == task_functions(views(functions@), functions@.len()),
{
    let mut ids: Vec<FuncId> = Vec::new();
    let mut i: usize = 0;
    assert(ids@ =~= Seq::empty());
    while i < functions.len()
        invariant
            i <= functions.len() <= id_limit(),
            ids@ == task_functions(views(functions@), i as nat),
        decreases functions.len() - i,
    {
        let function = &functions[i];
        assert(views(functions@)[i as int] == function@);
        if function.asynchronous && !function.is_template() && function.external.is_none() {
            ids.push(FuncId(i as u32));
        }
        i += 1;
    }
    ids
}

/// Turns the asynchronous functions of a program into tasks over a scheduler.
/// Runs after monomorphization and before inlining.
pub fn run(program: &mut Program) -> (gaps: Vec<Gap>)
    requires
        can_schedule(old(program)@),
    ensures
        (final(program)@, views(gaps@)) == scheduled(old(program)@),
{
    let ghost start = program@;
    let ids = find_task_functions(&program.functions);
    let mut gaps: Vec<Gap> = Vec::new();
    assert(views(gaps@) =~= Seq::empty());
    if ids.len() == 0 {
        return gaps;
    }
    proof {
        task_functions_are_there(start.functions, start.functions.len(), 0);
    }
    let span = program.function(ids[0]).span;
    let runtime = declare(program, span);
    let ghost held = program@;
    let cancelled = program.find_type("std/async.Cancelled");
    assert forall|j: int| 0 <= j < ids@.len() implies (#[trigger] ids@[j]).0
        < held.functions.len() by {
        task_functions_are_there(start.functions, start.functions.len(), j);
    }
    let mut k: usize = 0;
    while k < ids.len()
        invariant
            k <= ids.len(),
            ids@ == task_functions(start.functions, start.functions.len()),
            start.functions.len() <= held.functions.len(),
            start.functions.len() <= id_limit(),
            cancelled == cancelled_type(held),
            forall|j: nat|
                j < ids@.len() ==> can_transform(
                    #[trigger] all_transformed(held, runtime, ids@, j),
                    runtime,
                    ids@[j as int],
                    cancelled_type(held),
                ),
            forall|j: int| 0 <= j < ids@.len() ==> (#[trigger] ids@[j]).0 < held.functions.len(),
            program@ == all_transformed(held, runtime, ids@, k as nat),
            views(gaps@) == hindrances(held, runtime, ids@, k as nat),
        decreases ids.len() - k,
    {
        proof {
            transforming_adds(held, runtime, ids@, k as nat);
            assert(can_transform(
                all_transformed(held, runtime, ids@, k as nat),
                runtime,
                ids@[k as int],
                cancelled_type(held),
            ));
        }
        match transform(program, &runtime, ids[k], cancelled) {
            Some(gap) => {
                let ghost before = gaps@;
                gaps.push(gap);
                assert(views(gaps@) =~= views(before).push(gap@));
            },
            None => {},
        }
        k += 1;
    }
    expand_cancels(program, runtime.cancel);
    wrap_entry(program, &runtime);
    gaps
}

} // verus!
