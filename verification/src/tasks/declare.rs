//! Adding the runtime to a program.

use vstd::prelude::*;

use crate::program::{
    id_limit, views, Field, FieldView, FuncId, Nominal, NominalView, Program, ProgramView, Shape,
    ShapeView, Struct, StructView,
};
use crate::span::Span;
use crate::text::names;
use crate::ty::{Ty, TyView, TypeId};

use super::runtime::{
    cancel_children_code, cancel_code, cancel_scope_code, child_error_code, define_cancel,
    define_cancel_children, define_cancel_scope, define_child_error, define_drive, define_enqueue,
    define_next_child, define_start, define_wait, define_wake, drive_code, enqueue_code,
    next_child_code, start_code, wait_code, wake_code, Runtime,
};
use super::{list_of_dynamic, list_of_dynamic_view, named, named_view};

verus! {

/// The type of a scheduler: its runnable queue, and where the next entry sits.
pub open spec fn scheduler_of(span: Span) -> NominalView {
    NominalView {
        name: "#Scheduler"@,
        type_params: Seq::empty(),
        shape: ShapeView::Struct(
            StructView {
                fields: seq![
                    FieldView { name: "queue"@, ty: list_of_dynamic_view() },
                    FieldView { name: "head"@, ty: TyView::integer() },
                ],
                reference: true,
                repr_c: false,
            },
        ),
        span,
    }
}

/// What the runtime's type and functions are called once they are added to
/// `program`.
pub open spec fn runtime_of(program: ProgramView) -> Runtime {
    let first = program.functions.len();
    Runtime {
        scheduler: program.next_type(),
        enqueue: FuncId(first as u32),
        start: FuncId((first + 1) as u32),
        wake: FuncId((first + 2) as u32),
        cancel: FuncId((first + 3) as u32),
        cancel_children: FuncId((first + 4) as u32),
        cancel_scope: FuncId((first + 5) as u32),
        next_child: FuncId((first + 6) as u32),
        wait: FuncId((first + 7) as u32),
        child_error: FuncId((first + 8) as u32),
        drive: FuncId((first + 9) as u32),
    }
}

/// What cancellation delivers, where the program has it.
pub open spec fn cancelled_type(program: ProgramView) -> Option<TypeId> {
    program.find_type("std/async.Cancelled"@)
}

/// The program with the runtime.
pub open spec fn declared(program: ProgramView, span: Span) -> ProgramView {
    let runtime = runtime_of(program);
    let scheduler_ty = named_view(runtime.scheduler);
    let program = program.add_type(scheduler_of(span));
    let cancelled = cancelled_type(program);
    program.add_function(enqueue_code(scheduler_ty, span)).add_function(
        start_code(runtime, span),
    ).add_function(wake_code(runtime, cancelled, span)).add_function(
        cancel_code(runtime, span),
    ).add_function(cancel_children_code(runtime, span)).add_function(
        cancel_scope_code(runtime, span),
    ).add_function(next_child_code(span)).add_function(wait_code(span)).add_function(
        child_error_code(span),
    ).add_function(drive_code(runtime, scheduler_ty, span))
}

/// Every function of the runtime stands where the runtime says it does, and
/// what was there before is as it was.
pub proof fn the_runtime_is_where_it_says(program: ProgramView, span: Span)
    requires
        program.functions.len() + 10 <= id_limit(),
    ensures
        ({
            let runtime = runtime_of(program);
            let after = declared(program, span);
            let scheduler_ty = named_view(runtime.scheduler);
            let cancelled = cancelled_type(program.add_type(scheduler_of(span)));
            &&& after.types == program.types.push(scheduler_of(span))
            &&& after.functions.len() == program.functions.len() + 10
            &&& after.functions.take(program.functions.len() as int) == program.functions
            &&& after.function(runtime.enqueue) == enqueue_code(scheduler_ty, span)
            &&& after.function(runtime.start) == start_code(runtime, span)
            &&& after.function(runtime.wake) == wake_code(runtime, cancelled, span)
            &&& after.function(runtime.cancel) == cancel_code(runtime, span)
            &&& after.function(runtime.cancel_children) == cancel_children_code(runtime, span)
            &&& after.function(runtime.cancel_scope) == cancel_scope_code(runtime, span)
            &&& after.function(runtime.next_child) == next_child_code(span)
            &&& after.function(runtime.wait) == wait_code(span)
            &&& after.function(runtime.child_error) == child_error_code(span)
            &&& after.function(runtime.drive) == drive_code(runtime, scheduler_ty, span)
        }),
{
    let after = declared(program, span);
    assert(after.functions.take(program.functions.len() as int) =~= program.functions);
}

fn scheduler_type(span: Span) -> (nominal: Nominal)
    ensures
        nominal@ == scheduler_of(span),
{
    let mut fields: Vec<Field> = Vec::new();
    fields.push(Field { name: "queue".to_owned(), ty: list_of_dynamic() });
    fields.push(Field { name: "head".to_owned(), ty: Ty::integer() });
    assert(views(fields@) =~= scheduler_of(span).shape->Struct_0.fields);
    let type_params: Vec<String> = Vec::new();
    assert(names(type_params@) =~= Seq::empty());
    Nominal {
        name: "#Scheduler".to_owned(),
        type_params,
        shape: Shape::Struct(Struct { fields, reference: true, repr_c: false }),
        span,
    }
}

/// Adds the runtime to the program.
pub fn declare(program: &mut Program, span: Span) -> (runtime: Runtime)
    requires
        old(program)@.types.len() < id_limit(),
        old(program)@.functions.len() + 10 <= id_limit(),
    ensures
        final(program)@ == declared(old(program)@, span),
        runtime == runtime_of(old(program)@),
{
    let first: u32 = program.functions.len() as u32;
    let scheduler = program.add_type(scheduler_type(span));
    let scheduler_ty = named(scheduler);
    let runtime = Runtime {
        scheduler,
        enqueue: FuncId(first),
        start: FuncId(first + 1),
        wake: FuncId(first + 2),
        cancel: FuncId(first + 3),
        cancel_children: FuncId(first + 4),
        cancel_scope: FuncId(first + 5),
        next_child: FuncId(first + 6),
        wait: FuncId(first + 7),
        child_error: FuncId(first + 8),
        drive: FuncId(first + 9),
    };
    let cancelled = program.find_type("std/async.Cancelled");
    let _ = program.add_function(define_enqueue(&scheduler_ty, span));
    let _ = program.add_function(define_start(runtime, span));
    let _ = program.add_function(define_wake(runtime, cancelled, span));
    let _ = program.add_function(define_cancel(runtime, span));
    let _ = program.add_function(define_cancel_children(runtime, span));
    let _ = program.add_function(define_cancel_scope(runtime, span));
    let _ = program.add_function(define_next_child(span));
    let _ = program.add_function(define_wait(span));
    let _ = program.add_function(define_child_error(span));
    let _ = program.add_function(define_drive(runtime, &scheduler_ty, span));
    runtime
}

} // verus!
