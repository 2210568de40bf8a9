//! Starting an asynchronous entry point.

use vstd::prelude::*;

use crate::inst::{
    Allocation, InstKind, InstKindView, Value, clone_values, no_values, two, values_within,
};
use crate::program::{
    fresh_is_well_formed, id_limit, FuncId, Function, FunctionView, Program, ProgramView,
};
use crate::ty::{clone_tys, tys, Builtin, Ty, TyView};

use super::builder::{Builder, BuilderView};
use super::runtime::Runtime;
use super::split::awaited_completion;
use super::{
    list_of_dynamic, list_of_dynamic_view, named, named_view, optional_of, optional_of_view,
    result_of, COMPLETION, SCHEDULER, STARTED,
};

verus! {

/// Starts the task of `entry` on a scheduler of its own, which runs until the
/// task completes, and gives back what it completed with.
pub open spec fn driven_code(
    b: BuilderView,
    entry: FuncId,
    args: Seq<Value>,
    task_ty: TyView,
    completion_ty: TyView,
    runtime: Runtime,
) -> BuilderView {
    let (b, task) = b.call(entry, args, task_ty);
    let (b, queue) = b.put(InstKindView::MakeList { element: TyView::Dynamic, values: Seq::empty() }, list_of_dynamic_view());
    let (b, zero) = b.integer(0);
    let (b, held) = b.put(InstKindView::MakeStruct { ty: named_view(runtime.scheduler), fields: seq![queue, zero], allocation: Allocation::Managed }, named_view(runtime.scheduler));
    let (b, scheduler) = b.boxed(held);
    let (b, yes) = b.boolean(true);
    let b = b.set(task, STARTED, yes);
    let b = b.set(task, SCHEDULER, scheduler);
    let (b, boxed) = b.boxed(task);
    let (b, _) = b.call(runtime.enqueue, seq![scheduler, boxed], TyView::Unit);
    let (b, _) = b.call(runtime.drive, seq![scheduler, boxed], TyView::Unit);
    let (b, completion) = b.get(task, COMPLETION, optional_of_view(completion_ty));
    let (b, ended) = b.unwrap(completion, completion_ty);
    let b = b.ret(ended);
    b
}

fn drive_task(
    b: &mut Builder,
    entry: FuncId,
    args: Vec<Value>,
    task_ty: &Ty,
    completion_ty: &Ty,
    runtime: Runtime,
)
    requires
        old(b)@.function.values.len() + 11 <= id_limit(),
        old(b)@.current.0 < old(b)@.function.blocks.len(),
        old(b)@.sound(),
        values_within(args@, old(b)@.function.values.len()),
    ensures
        final(b)@ == driven_code(old(b)@, entry, args@, task_ty@, completion_ty@, runtime),
        final(b)@.sound(),
{
    let task = b.call(entry, args, task_ty.clone());
    let queue = b.emit(InstKind::MakeList { element: Ty::Dynamic, values: no_values() }, list_of_dynamic());
    let zero = b.integer(0);
    let held = b.emit(InstKind::MakeStruct { ty: named(runtime.scheduler), fields: two(queue, zero), allocation: Allocation::Managed }, named(runtime.scheduler));
    let scheduler = b.boxed(held);
    let yes = b.boolean(true);
    b.set(task, STARTED, yes);
    b.set(task, SCHEDULER, scheduler);
    let boxed = b.boxed(task);
    let _ = b.call(runtime.enqueue, two(scheduler, boxed), Ty::Unit);
    let _ = b.call(runtime.drive, two(scheduler, boxed), Ty::Unit);
    let completion = b.get(task, COMPLETION, optional_of(completion_ty.clone()));
    let ended = b.unwrap(completion, completion_ty.clone());
    b.ret(ended);
}

/// The entry point that drives the task of `main` to its end.
#[verifier::opaque]
pub open spec fn driver_of(main: FunctionView, entry: FuncId, runtime: Runtime) -> FunctionView {
    let completion_ty = awaited_completion(main.result);
    let fresh = FunctionView::fresh(main.name + "#entry"@, main.params, completion_ty, main.span);
    let b = BuilderView { function: fresh, current: fresh.entry, span: main.span };
    driven_code(
        b,
        entry,
        fresh.block(fresh.entry).params,
        main.result,
        completion_ty,
        runtime,
    ).function
}

/// Whether calling `main` gives a task.
pub open spec fn starts_a_task(main: FunctionView) -> bool {
    main.asynchronous && main.result is Builtin && main.result->Builtin_kind == Builtin::Task
}

/// The program with an asynchronous entry point started on a scheduler of its
/// own; as it was where the entry point is not asynchronous.
pub open spec fn entry_wrapped(program: ProgramView, runtime: Runtime) -> ProgramView {
    match program.entry {
        Some(entry) => {
            let main = program.function(entry);
            if starts_a_task(main) {
                ProgramView {
                    entry: Some(program.next_function()),
                    ..program.add_function(driver_of(main, entry, runtime))
                }
            } else {
                program
            }
        },
        None => program,
    }
}

/// Whether the entry point can be started that way.
pub open spec fn can_wrap(program: ProgramView) -> bool {
    program.entry matches Some(entry) ==> {
        &&& entry.0 < program.functions.len()
        &&& starts_a_task(program.function(entry)) ==> {
            &&& program.function(entry).result->Builtin_args.len() > 0
            &&& program.function(entry).params.len() + 11 <= id_limit()
            &&& program.functions.len() < id_limit()
        }
    }
}

/// Starts an asynchronous `main` on a fresh scheduler, which runs until it
/// completes; what it completed with is what the process reports.
pub fn wrap_entry(program: &mut Program, runtime: &Runtime)
    requires
        can_wrap(old(program)@),
    ensures
        final(program)@ == entry_wrapped(old(program)@, *runtime),
{
    let ghost start = program@;
    if let Some(entry) = program.entry {
        let main = program.function(entry);
        let completion_ty = match &main.result {
            Ty::Builtin { kind, args } => {
                assert(main@.result == TyView::Builtin { kind: *kind, args: tys(args@) });
                if main.asynchronous && *kind == Builtin::Task {
                    assert(tys(args@)[0] == args@[0]@);
                    Some(result_of(args[0].clone()))
                } else {
                    None
                }
            },
            _ => None,
        };
        if let Some(completion_ty) = completion_ty {
            let mut name = main.name.clone();
            name.append("#entry");
            let wrapper = Function::new(
                name,
                clone_tys(&main.params),
                completion_ty.clone(),
                main.span,
            );
            let block = wrapper.entry;
            let args = clone_values(&wrapper.block(block).params);
            proof {
                fresh_is_well_formed(name@, main@.params, completion_ty@, main@.span);
                reveal(driver_of);
            }
            let mut b = Builder::new(wrapper, block, main.span);
            drive_task(&mut b, entry, args, &main.result, &completion_ty, *runtime);
            let id = program.add_function(b.finish());
            program.entry = Some(id);
        }
    }
    assert(program@ =~= entry_wrapped(start, *runtime));
}

} // verus!
