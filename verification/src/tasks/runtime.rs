//! The scheduler every program with a task carries: a FIFO queue of runnable
//! tasks, and the operations on erased task handles that starting, waiting,
//! waking, joining, and cancelling need.

use vstd::prelude::*;

use crate::inst::{InstKind, InstKindView, Value, no_values, one, two};
use crate::program::{fresh_is_well_formed, id_limit, BlockId, FuncId, Function, FunctionView};
use crate::span::Span;
use crate::ty::{tys, Ty, TyView, TypeId};

use super::builder::{all_ended, Builder, BuilderView};
use super::machine::{cancellation, cancellation_code};
use super::{
    erased_task, erased_task_view, list_of_dynamic, list_of_dynamic_view, named, named_view,
    optional_of, optional_of_view, poll_closure, poll_closure_view, result_of, result_of_view,
    scope_type, scope_type_view, ACTIVE_SCOPE, COMPLETION, OBSERVED, OWNER, POLL, QUEUED, REQUEST,
    SCHEDULER, SCOPE_CHILDREN, SCOPE_FAILURES, SCOPE_PARENT, SCOPE_REQUEST, SCOPE_SHIELDED, STARTED,
    WAITERS, WAITING,
};

verus! {

/// The runnable queue.
pub const QUEUE: u32 = 0;

/// Where its next entry sits.
pub const HEAD: u32 = 1;

/// What the runtime's type and functions are called.
#[derive(Debug, Clone, Copy, PartialEq, Eq, Structural)]
pub struct Runtime {
    pub scheduler: TypeId,
    pub enqueue: FuncId,
    pub start: FuncId,
    pub wake: FuncId,
    pub cancel: FuncId,
    pub cancel_children: FuncId,
    pub cancel_scope: FuncId,
    pub next_child: FuncId,
    pub child_error: FuncId,
    pub wait: FuncId,
    pub drive: FuncId,
}

/// `dynamic?`.
pub open spec fn optional_dynamic_view() -> TyView {
    optional_of_view(TyView::Dynamic)
}

/// `dynamic?`.
pub fn optional_dynamic() -> (ty: Ty)
    ensures
        ty@ == optional_dynamic_view(),
{
    optional_of(Ty::Dynamic)
}

/// What a task whose result is not needed completes with.
pub open spec fn erased_completion_view() -> TyView {
    result_of_view(TyView::Unit)
}

/// What a task whose result is not needed completes with.
pub fn erased_completion() -> (ty: Ty)
    ensures
        ty@ == erased_completion_view(),
{
    result_of(Ty::Unit)
}

/// That, or nothing yet.
pub open spec fn maybe_completion_view() -> TyView {
    optional_of_view(erased_completion_view())
}

/// That, or nothing yet.
pub fn maybe_completion() -> (ty: Ty)
    ensures
        ty@ == maybe_completion_view(),
{
    optional_of(erased_completion())
}

/// The scope around a scope, if there is one.
pub open spec fn maybe_scope_view() -> TyView {
    optional_of_view(scope_type_view())
}

/// The scope around a scope, if there is one.
pub fn maybe_scope() -> (ty: Ty)
    ensures
        ty@ == maybe_scope_view(),
{
    optional_of(scope_type())
}

/// A function over `arity` erased handles, with nothing in it yet.
pub open spec fn reserved_view(
    name: Seq<char>,
    arity: nat,
    result: TyView,
    span: Span,
) -> FunctionView {
    FunctionView::fresh(name, Seq::new(arity, |i: int| TyView::Dynamic), result, span)
}

fn reserved(name: &str, arity: usize, result: Ty, span: Span) -> (function: Function)
    requires
        arity <= id_limit(),
    ensures
        function@ == reserved_view(name@, arity as nat, result@, span),
        function@.well_formed(),
{
    let mut params: Vec<Ty> = Vec::new();
    let mut i: usize = 0;
    while i < arity
        invariant
            i <= arity,
            params@.len() == i,
            forall|j: int| 0 <= j < i ==> (#[trigger] params@[j])@ == TyView::Dynamic,
        decreases arity - i,
    {
        params.push(Ty::Dynamic);
        i += 1;
    }
    assert(tys(params@) =~= Seq::new(arity as nat, |i: int| TyView::Dynamic));
    proof {
        fresh_is_well_formed(name@, tys(params@), result@, span);
    }
    Function::new(name.to_owned(), params, result, span)
}

/// Puts a task in the queue of runnable ones, where it is not there already.
#[verifier::opaque]
pub open spec fn enqueue_code(scheduler_ty: TyView, span: Span) -> FunctionView {
    let b = BuilderView {
        function: reserved_view("#task.enqueue"@, 2, TyView::Unit, span),
        current: BlockId(0),
        span,
    };
    let sched = Value(0);
    let task = Value(1);
    let (b, t) = b.unboxed(task, erased_task_view());
    let (b, queued) = b.get(t, QUEUED, TyView::Bool);
    let (b, push) = b.open_block();
    let (b, done) = b.open_block();
    let b = b.branch(queued, done, push);
    let b = b.switch_to(push);
    let (b, yes) = b.boolean(true);
    let b = b.set(t, QUEUED, yes);
    let (b, s) = b.unboxed(sched, scheduler_ty);
    let (b, queue) = b.get(s, QUEUE, list_of_dynamic_view());
    let b = b.emit_void(InstKindView::ListPush { receiver: queue, value: task });
    let b = b.jump(done);
    let b = b.switch_to(done);
    let (b, unit) = b.unit();
    let b = b.ret(unit);
    b.function
}

/// Writes [`enqueue_code`].
pub fn define_enqueue(scheduler_ty: &Ty, span: Span) -> (done: Function)
    ensures
        done@ == enqueue_code(scheduler_ty@, span),
        done@.well_formed(),
        done@.finished(),
{
    proof {
        reveal(enqueue_code);
    }
    let function = reserved("#task.enqueue", 2, Ty::Unit, span);
    let mut b = Builder::new(function, BlockId(0), span);
    let sched = Value(0);
    let task = Value(1);
    let t = b.unboxed(task, erased_task());
    let queued = b.get(t, QUEUED, Ty::Bool);
    let push = b.block();
    let done = b.block();
    b.branch(queued, done, push);

    b.switch_to(push);
    let yes = b.boolean(true);
    b.set(t, QUEUED, yes);
    let s = b.unboxed(sched, scheduler_ty.clone());
    let queue = b.get(s, QUEUE, list_of_dynamic());
    b.emit_void(InstKind::ListPush { receiver: queue, value: task });
    b.jump(done);

    b.switch_to(done);
    let unit = b.unit();
    b.ret(unit);
    proof {
        assert(b@.ended(BlockId(0)));
        assert(b@.ended(BlockId(1)));
        assert(b@.ended(BlockId(2)));
        all_ended(b@);
    }
    b.finish()
}

/// Starts a task: the scope of the task that starts it becomes its owner, and
/// it is queued, or cancelled where that scope already is.
#[verifier::opaque]
pub open spec fn start_code(runtime: Runtime, span: Span) -> FunctionView {
    let b = BuilderView {
        function: reserved_view("#task.start"@, 2, TyView::Unit, span),
        current: BlockId(0),
        span,
    };
    let parent = Value(0);
    let child = Value(1);
    let (b, c) = b.unboxed(child, erased_task_view());
    let (b, p) = b.unboxed(parent, erased_task_view());
    let (b, sched) = b.get(p, SCHEDULER, TyView::Dynamic);
    let b = b.set(c, SCHEDULER, sched);
    let (b, scope) = b.get(p, ACTIVE_SCOPE, scope_type_view());
    let (b, boxed_scope) = b.boxed(scope);
    let (b, owner) = b.some(boxed_scope);
    let b = b.set(c, OWNER, owner);
    let (b, children) = b.get(scope, SCOPE_CHILDREN, list_of_dynamic_view());
    let b = b.emit_void(InstKindView::ListPush { receiver: children, value: child });
    let (b, request) = b.get(scope, SCOPE_REQUEST, optional_dynamic_view());
    let (b, cancelled) = b.is_some(request);
    let (b, cancel) = b.open_block();
    let (b, enqueue) = b.open_block();
    let (b, done) = b.open_block();
    let b = b.branch(cancelled, cancel, enqueue);
    let b = b.switch_to(cancel);
    let (b, error) = b.unwrap(request, TyView::Dynamic);
    let (b, _) = b.call(runtime.cancel, seq![child, error], TyView::Unit);
    let b = b.jump(done);
    let b = b.switch_to(enqueue);
    let (b, yes) = b.boolean(true);
    let b = b.set(c, STARTED, yes);
    let (b, _) = b.call(runtime.enqueue, seq![sched, child], TyView::Unit);
    let b = b.jump(done);
    let b = b.switch_to(done);
    let (b, unit) = b.unit();
    let b = b.ret(unit);
    b.function
}

/// Writes [`start_code`].
pub fn define_start(runtime: Runtime, span: Span) -> (done: Function)
    ensures
        done@ == start_code(runtime, span),
        done@.well_formed(),
        done@.finished(),
{
    proof {
        reveal(start_code);
    }
    let function = reserved("#task.start", 2, Ty::Unit, span);
    let mut b = Builder::new(function, BlockId(0), span);
    let parent = Value(0);
    let child = Value(1);
    let c = b.unboxed(child, erased_task());
    let p = b.unboxed(parent, erased_task());
    let sched = b.get(p, SCHEDULER, Ty::Dynamic);
    b.set(c, SCHEDULER, sched);
    let scope = b.get(p, ACTIVE_SCOPE, scope_type());
    let boxed_scope = b.boxed(scope);
    let owner = b.some(boxed_scope);
    b.set(c, OWNER, owner);
    let children = b.get(scope, SCOPE_CHILDREN, list_of_dynamic());
    b.emit_void(InstKind::ListPush { receiver: children, value: child });
    let request = b.get(scope, SCOPE_REQUEST, optional_dynamic());
    let cancelled = b.is_some(request);
    let cancel = b.block();
    let enqueue = b.block();
    let done = b.block();
    b.branch(cancelled, cancel, enqueue);

    b.switch_to(cancel);
    let error = b.unwrap(request, Ty::Dynamic);
    let _ = b.call(runtime.cancel, two(child, error), Ty::Unit);
    b.jump(done);

    b.switch_to(enqueue);
    let yes = b.boolean(true);
    b.set(c, STARTED, yes);
    let _ = b.call(runtime.enqueue, two(sched, child), Ty::Unit);
    b.jump(done);

    b.switch_to(done);
    let unit = b.unit();
    b.ret(unit);
    proof {
        assert(b@.ended(BlockId(0)));
        assert(b@.ended(BlockId(1)));
        assert(b@.ended(BlockId(2)));
        assert(b@.ended(BlockId(3)));
        all_ended(b@);
    }
    b.finish()
}

/// Completes a task: what waits for it is queued in the order it began to
/// wait. A failure that is no cancellation is recorded with the owner, whose
/// other children are cancelled.
#[verifier::opaque]
pub open spec fn wake_code(runtime: Runtime, cancelled: Option<TypeId>, span: Span) -> FunctionView {
    let b = BuilderView {
        function: reserved_view("#task.wake"@, 1, TyView::Unit, span),
        current: BlockId(0),
        span,
    };
    let task = Value(0);
    let (b, t) = b.unboxed(task, erased_task_view());
    let (b, owner) = b.get(t, OWNER, optional_dynamic_view());
    let (b, owned) = b.is_some(owner);
    let (b, inspect) = b.open_block();
    let (b, notify) = b.open_block();
    let b = b.branch(owned, inspect, notify);
    let b = b.switch_to(inspect);
    let (b, maybe) = b.get(t, COMPLETION, maybe_completion_view());
    let (b, completion) = b.unwrap(maybe, erased_completion_view());
    let (b, tag) = b.put(InstKindView::GetTag { value: completion }, TyView::integer());
    let (b, first) = b.integer(1);
    let (b, failed) = b.equal(tag, first);
    let (b, failure) = b.open_block();
    let b = b.branch(failed, failure, notify);
    let b = b.switch_to(failure);
    let (b, error) = b.put(InstKindView::GetPayload { value: completion, variant: 1, field: 0 }, TyView::Dynamic);
    let (b, record) = b.open_block();
    let b = match cancelled {
        Some(id) => {
            let (b, excluded) = b.put(
                InstKindView::IsType { value: error, ty: named_view(id) },
                TyView::Bool,
            );
            b.branch(excluded, notify, record)
        },
        None => b.jump(record),
    };
    let b = b.switch_to(record);
    let (b, parent) = b.unwrap(owner, TyView::Dynamic);
    let (b, p) = b.unboxed(parent, scope_type_view());
    let (b, failures) = b.get(p, SCOPE_FAILURES, list_of_dynamic_view());
    let b = b.emit_void(InstKindView::ListPush { receiver: failures, value: task });
    let (b, request) = cancellation_code(b, cancelled);
    let (b, _) = b.call(runtime.cancel_scope, seq![parent, request], TyView::Unit);
    let b = b.jump(notify);
    let b = b.switch_to(notify);
    let (b, waiters) = b.get(t, WAITERS, list_of_dynamic_view());
    let (b, count) = b.length(waiters);
    let (b, head) = b.open_block();
    let (b, index) = b.open_param(head, TyView::integer());
    let (b, body) = b.open_block();
    let (b, end) = b.open_block();
    let (b, zero) = b.integer(0);
    let b = b.jump_with(head, seq![zero]);
    let b = b.switch_to(head);
    let (b, finished) = b.equal(index, count);
    let b = b.branch(finished, end, body);
    let b = b.switch_to(body);
    let (b, waiter) = b.index(waiters, index, TyView::Dynamic);
    let (b, w) = b.unboxed(waiter, erased_task_view());
    let (b, sched) = b.get(w, SCHEDULER, TyView::Dynamic);
    let (b, _) = b.call(runtime.enqueue, seq![sched, waiter], TyView::Unit);
    let (b, step) = b.integer(1);
    let (b, next) = b.plus(index, step);
    let b = b.jump_with(head, seq![next]);
    let b = b.switch_to(end);
    let b = b.emit_void(InstKindView::Clear { receiver: waiters });
    let (b, unit) = b.unit();
    let b = b.ret(unit);
    b.function
}

/// Writes [`wake_code`].
pub fn define_wake(runtime: Runtime, cancelled: Option<TypeId>, span: Span) -> (done: Function)
    ensures
        done@ == wake_code(runtime, cancelled, span),
        done@.well_formed(),
        done@.finished(),
{
    proof {
        reveal(wake_code);
    }
    let function = reserved("#task.wake", 1, Ty::Unit, span);
    let mut b = Builder::new(function, BlockId(0), span);
    let task = Value(0);
    let t = b.unboxed(task, erased_task());
    let owner = b.get(t, OWNER, optional_dynamic());
    let owned = b.is_some(owner);
    let inspect = b.block();
    let notify = b.block();
    b.branch(owned, inspect, notify);

    b.switch_to(inspect);
    let maybe = b.get(t, COMPLETION, maybe_completion());
    let completion = b.unwrap(maybe, erased_completion());
    let tag = b.emit(InstKind::GetTag { value: completion }, Ty::integer());
    let first = b.integer(1);
    let failed = b.equal(tag, first);
    let failure = b.block();
    b.branch(failed, failure, notify);

    b.switch_to(failure);
    let error = b.emit(InstKind::GetPayload { value: completion, variant: 1, field: 0 }, Ty::Dynamic);
    let record = b.block();
    match cancelled {
        Some(id) => {
            let excluded = b.emit(InstKind::IsType { value: error, ty: named(id) }, Ty::Bool);
            b.branch(excluded, notify, record);
        },
        None => {
            b.jump(record);
        },
    }

    b.switch_to(record);
    let parent = b.unwrap(owner, Ty::Dynamic);
    let p = b.unboxed(parent, scope_type());
    let failures = b.get(p, SCOPE_FAILURES, list_of_dynamic());
    b.emit_void(InstKind::ListPush { receiver: failures, value: task });
    let request = cancellation(&mut b, cancelled);
    let _ = b.call(runtime.cancel_scope, two(parent, request), Ty::Unit);
    b.jump(notify);

    b.switch_to(notify);
    let waiters = b.get(t, WAITERS, list_of_dynamic());
    let count = b.length(waiters);
    let head = b.block();
    let index = b.param(head, Ty::integer());
    let body = b.block();
    let end = b.block();
    let zero = b.integer(0);
    b.jump_with(head, one(zero));

    b.switch_to(head);
    let finished = b.equal(index, count);
    b.branch(finished, end, body);

    b.switch_to(body);
    let waiter = b.index(waiters, index, Ty::Dynamic);
    let w = b.unboxed(waiter, erased_task());
    let sched = b.get(w, SCHEDULER, Ty::Dynamic);
    let _ = b.call(runtime.enqueue, two(sched, waiter), Ty::Unit);
    let step = b.integer(1);
    let next = b.plus(index, step);
    b.jump_with(head, one(next));

    b.switch_to(end);
    b.emit_void(InstKind::Clear { receiver: waiters });
    let unit = b.unit();
    b.ret(unit);
    proof {
        assert(b@.ended(BlockId(0)));
        assert(b@.ended(BlockId(1)));
        assert(b@.ended(BlockId(2)));
        assert(b@.ended(BlockId(3)));
        assert(b@.ended(BlockId(4)));
        assert(b@.ended(BlockId(5)));
        assert(b@.ended(BlockId(6)));
        assert(b@.ended(BlockId(7)));
        all_ended(b@);
    }
    b.finish()
}

/// Asks a task to stop, once. A task that has not started completes with the
/// request; one that has passes it to its children and is queued to receive it.
#[verifier::opaque]
pub open spec fn cancel_code(runtime: Runtime, span: Span) -> FunctionView {
    let b = BuilderView {
        function: reserved_view("#task.cancel"@, 2, TyView::Unit, span),
        current: BlockId(0),
        span,
    };
    let task = Value(0);
    let error = Value(1);
    let (b, t) = b.unboxed(task, erased_task_view());
    let (b, completion) = b.get(t, COMPLETION, maybe_completion_view());
    let (b, completed) = b.is_some(completion);
    let (b, pending) = b.open_block();
    let (b, done) = b.open_block();
    let b = b.branch(completed, done, pending);
    let b = b.switch_to(pending);
    let (b, request) = b.get(t, REQUEST, optional_dynamic_view());
    let (b, requested) = b.is_some(request);
    let (b, mark) = b.open_block();
    let b = b.branch(requested, done, mark);
    let b = b.switch_to(mark);
    let (b, asked) = b.some(error);
    let b = b.set(t, REQUEST, asked);
    let (b, started) = b.get(t, STARTED, TyView::Bool);
    let (b, propagate) = b.open_block();
    let (b, unstarted) = b.open_block();
    let b = b.branch(started, propagate, unstarted);
    let b = b.switch_to(unstarted);
    let (b, failed) = b.put(InstKindView::MakeEnum { ty: erased_completion_view(), variant: 1, payload: seq![error] }, erased_completion_view());
    let (b, outcome) = b.some(failed);
    let b = b.set(t, COMPLETION, outcome);
    let b = b.jump(done);
    let b = b.switch_to(propagate);
    let (b, _) = b.call(runtime.cancel_children, seq![task, error], TyView::Unit);
    let (b, sched) = b.get(t, SCHEDULER, TyView::Dynamic);
    let (b, _) = b.call(runtime.enqueue, seq![sched, task], TyView::Unit);
    let b = b.jump(done);
    let b = b.switch_to(done);
    let (b, unit) = b.unit();
    let b = b.ret(unit);
    b.function
}

/// Writes [`cancel_code`].
pub fn define_cancel(runtime: Runtime, span: Span) -> (done: Function)
    ensures
        done@ == cancel_code(runtime, span),
        done@.well_formed(),
        done@.finished(),
{
    proof {
        reveal(cancel_code);
    }
    let function = reserved("#task.cancel", 2, Ty::Unit, span);
    let mut b = Builder::new(function, BlockId(0), span);
    let task = Value(0);
    let error = Value(1);
    let t = b.unboxed(task, erased_task());
    let completion = b.get(t, COMPLETION, maybe_completion());
    let completed = b.is_some(completion);
    let pending = b.block();
    let done = b.block();
    b.branch(completed, done, pending);

    b.switch_to(pending);
    let request = b.get(t, REQUEST, optional_dynamic());
    let requested = b.is_some(request);
    let mark = b.block();
    b.branch(requested, done, mark);

    b.switch_to(mark);
    let asked = b.some(error);
    b.set(t, REQUEST, asked);
    let started = b.get(t, STARTED, Ty::Bool);
    let propagate = b.block();
    let unstarted = b.block();
    b.branch(started, propagate, unstarted);

    b.switch_to(unstarted);
    let failed = b.emit(InstKind::MakeEnum { ty: erased_completion(), variant: 1, payload: one(error) }, erased_completion());
    let outcome = b.some(failed);
    b.set(t, COMPLETION, outcome);
    b.jump(done);

    b.switch_to(propagate);
    let _ = b.call(runtime.cancel_children, two(task, error), Ty::Unit);
    let sched = b.get(t, SCHEDULER, Ty::Dynamic);
    let _ = b.call(runtime.enqueue, two(sched, task), Ty::Unit);
    b.jump(done);

    b.switch_to(done);
    let unit = b.unit();
    b.ret(unit);
    proof {
        assert(b@.ended(BlockId(0)));
        assert(b@.ended(BlockId(1)));
        assert(b@.ended(BlockId(2)));
        assert(b@.ended(BlockId(3)));
        assert(b@.ended(BlockId(4)));
        assert(b@.ended(BlockId(5)));
        all_ended(b@);
    }
    b.finish()
}

/// Passes a request to every scope of a task that is not shielded, from the
/// innermost out.
#[verifier::opaque]
pub open spec fn cancel_children_code(runtime: Runtime, span: Span) -> FunctionView {
    let b = BuilderView {
        function: reserved_view("#task.cancelChildren"@, 2, TyView::Unit, span),
        current: BlockId(0),
        span,
    };
    let task = Value(0);
    let error = Value(1);
    let (b, t) = b.unboxed(task, erased_task_view());
    let (b, active) = b.get(t, ACTIVE_SCOPE, scope_type_view());
    let (b, walk) = b.open_block();
    let (b, scope) = b.open_param(walk, scope_type_view());
    let (b, next) = b.open_block();
    let (b, done) = b.open_block();
    let b = b.jump_with(walk, seq![active]);
    let b = b.switch_to(walk);
    let (b, shielded) = b.get(scope, SCOPE_SHIELDED, TyView::Bool);
    let (b, mark) = b.open_block();
    let (b, follow) = b.open_block();
    let b = b.branch(shielded, follow, mark);
    let b = b.switch_to(mark);
    let (b, request) = b.some(error);
    let b = b.set(scope, SCOPE_REQUEST, request);
    let (b, boxed) = b.boxed(scope);
    let (b, _) = b.call(runtime.cancel_scope, seq![boxed, error], TyView::Unit);
    let b = b.jump(follow);
    let b = b.switch_to(follow);
    let (b, parent) = b.get(scope, SCOPE_PARENT, maybe_scope_view());
    let (b, has_parent) = b.is_some(parent);
    let b = b.branch(has_parent, next, done);
    let b = b.switch_to(next);
    let (b, outer) = b.unwrap(parent, scope_type_view());
    let b = b.jump_with(walk, seq![outer]);
    let b = b.switch_to(done);
    let (b, unit) = b.unit();
    let b = b.ret(unit);
    b.function
}

/// Writes [`cancel_children_code`].
pub fn define_cancel_children(runtime: Runtime, span: Span) -> (done: Function)
    ensures
        done@ == cancel_children_code(runtime, span),
        done@.well_formed(),
        done@.finished(),
{
    proof {
        reveal(cancel_children_code);
    }
    let function = reserved("#task.cancelChildren", 2, Ty::Unit, span);
    let mut b = Builder::new(function, BlockId(0), span);
    let task = Value(0);
    let error = Value(1);
    let t = b.unboxed(task, erased_task());
    let active = b.get(t, ACTIVE_SCOPE, scope_type());
    let walk = b.block();
    let scope = b.param(walk, scope_type());
    let next = b.block();
    let done = b.block();
    b.jump_with(walk, one(active));

    b.switch_to(walk);
    let shielded = b.get(scope, SCOPE_SHIELDED, Ty::Bool);
    let mark = b.block();
    let follow = b.block();
    b.branch(shielded, follow, mark);

    b.switch_to(mark);
    let request = b.some(error);
    b.set(scope, SCOPE_REQUEST, request);
    let boxed = b.boxed(scope);
    let _ = b.call(runtime.cancel_scope, two(boxed, error), Ty::Unit);
    b.jump(follow);

    b.switch_to(follow);
    let parent = b.get(scope, SCOPE_PARENT, maybe_scope());
    let has_parent = b.is_some(parent);
    b.branch(has_parent, next, done);

    b.switch_to(next);
    let outer = b.unwrap(parent, scope_type());
    b.jump_with(walk, one(outer));

    b.switch_to(done);
    let unit = b.unit();
    b.ret(unit);
    proof {
        assert(b@.ended(BlockId(0)));
        assert(b@.ended(BlockId(1)));
        assert(b@.ended(BlockId(2)));
        assert(b@.ended(BlockId(3)));
        assert(b@.ended(BlockId(4)));
        assert(b@.ended(BlockId(5)));
        all_ended(b@);
    }
    b.finish()
}

/// Passes a request to every child of a scope.
#[verifier::opaque]
pub open spec fn cancel_scope_code(runtime: Runtime, span: Span) -> FunctionView {
    let b = BuilderView {
        function: reserved_view("#scope.cancel"@, 2, TyView::Unit, span),
        current: BlockId(0),
        span,
    };
    let task = Value(0);
    let error = Value(1);
    let (b, t) = b.unboxed(task, scope_type_view());
    let (b, children) = b.get(t, SCOPE_CHILDREN, list_of_dynamic_view());
    let (b, count) = b.length(children);
    let (b, head) = b.open_block();
    let (b, index) = b.open_param(head, TyView::integer());
    let (b, body) = b.open_block();
    let (b, end) = b.open_block();
    let (b, zero) = b.integer(0);
    let b = b.jump_with(head, seq![zero]);
    let b = b.switch_to(head);
    let (b, finished) = b.equal(index, count);
    let b = b.branch(finished, end, body);
    let b = b.switch_to(body);
    let (b, child) = b.index(children, index, TyView::Dynamic);
    let (b, _) = b.call(runtime.cancel, seq![child, error], TyView::Unit);
    let (b, step) = b.integer(1);
    let (b, next) = b.plus(index, step);
    let b = b.jump_with(head, seq![next]);
    let b = b.switch_to(end);
    let (b, unit) = b.unit();
    let b = b.ret(unit);
    b.function
}

/// Writes [`cancel_scope_code`].
pub fn define_cancel_scope(runtime: Runtime, span: Span) -> (done: Function)
    ensures
        done@ == cancel_scope_code(runtime, span),
        done@.well_formed(),
        done@.finished(),
{
    proof {
        reveal(cancel_scope_code);
    }
    let function = reserved("#scope.cancel", 2, Ty::Unit, span);
    let mut b = Builder::new(function, BlockId(0), span);
    let task = Value(0);
    let error = Value(1);
    let t = b.unboxed(task, scope_type());
    let children = b.get(t, SCOPE_CHILDREN, list_of_dynamic());
    let count = b.length(children);
    let head = b.block();
    let index = b.param(head, Ty::integer());
    let body = b.block();
    let end = b.block();
    let zero = b.integer(0);
    b.jump_with(head, one(zero));

    b.switch_to(head);
    let finished = b.equal(index, count);
    b.branch(finished, end, body);

    b.switch_to(body);
    let child = b.index(children, index, Ty::Dynamic);
    let _ = b.call(runtime.cancel, two(child, error), Ty::Unit);
    let step = b.integer(1);
    let next = b.plus(index, step);
    b.jump_with(head, one(next));

    b.switch_to(end);
    let unit = b.unit();
    b.ret(unit);
    proof {
        assert(b@.ended(BlockId(0)));
        assert(b@.ended(BlockId(1)));
        assert(b@.ended(BlockId(2)));
        assert(b@.ended(BlockId(3)));
        all_ended(b@);
    }
    b.finish()
}

/// The first child a scope still has to wait for, or nothing.
#[verifier::opaque]
pub open spec fn next_child_code(span: Span) -> FunctionView {
    let b = BuilderView {
        function: reserved_view("#task.nextChild"@, 1, optional_dynamic_view(), span),
        current: BlockId(0),
        span,
    };
    let task = Value(0);
    let (b, t) = b.unboxed(task, scope_type_view());
    let (b, children) = b.get(t, SCOPE_CHILDREN, list_of_dynamic_view());
    let (b, count) = b.length(children);
    let (b, head) = b.open_block();
    let (b, index) = b.open_param(head, TyView::integer());
    let (b, body) = b.open_block();
    let (b, step) = b.open_block();
    let (b, found) = b.open_block();
    let (b, none) = b.open_block();
    let (b, zero) = b.integer(0);
    let b = b.jump_with(head, seq![zero]);
    let b = b.switch_to(head);
    let (b, finished) = b.equal(index, count);
    let b = b.branch(finished, none, body);
    let b = b.switch_to(body);
    let (b, child) = b.index(children, index, TyView::Dynamic);
    let (b, c) = b.unboxed(child, erased_task_view());
    let (b, completion) = b.get(c, COMPLETION, maybe_completion_view());
    let (b, completed) = b.is_some(completion);
    let b = b.branch(completed, step, found);
    let b = b.switch_to(step);
    let (b, more) = b.integer(1);
    let (b, next) = b.plus(index, more);
    let b = b.jump_with(head, seq![next]);
    let b = b.switch_to(found);
    let (b, some) = b.some(child);
    let b = b.ret(some);
    let b = b.switch_to(none);
    let (b, nil) = b.nil(optional_dynamic_view());
    let b = b.ret(nil);
    b.function
}

/// Writes [`next_child_code`].
pub fn define_next_child(span: Span) -> (done: Function)
    ensures
        done@ == next_child_code(span),
        done@.well_formed(),
        done@.finished(),
{
    proof {
        reveal(next_child_code);
    }
    let function = reserved("#task.nextChild", 1, optional_dynamic(), span);
    let mut b = Builder::new(function, BlockId(0), span);
    let task = Value(0);
    let t = b.unboxed(task, scope_type());
    let children = b.get(t, SCOPE_CHILDREN, list_of_dynamic());
    let count = b.length(children);
    let head = b.block();
    let index = b.param(head, Ty::integer());
    let body = b.block();
    let step = b.block();
    let found = b.block();
    let none = b.block();
    let zero = b.integer(0);
    b.jump_with(head, one(zero));

    b.switch_to(head);
    let finished = b.equal(index, count);
    b.branch(finished, none, body);

    b.switch_to(body);
    let child = b.index(children, index, Ty::Dynamic);
    let c = b.unboxed(child, erased_task());
    let completion = b.get(c, COMPLETION, maybe_completion());
    let completed = b.is_some(completion);
    b.branch(completed, step, found);

    b.switch_to(step);
    let more = b.integer(1);
    let next = b.plus(index, more);
    b.jump_with(head, one(next));

    b.switch_to(found);
    let some = b.some(child);
    b.ret(some);

    b.switch_to(none);
    let nil = b.nil(optional_dynamic());
    b.ret(nil);
    proof {
        assert(b@.ended(BlockId(0)));
        assert(b@.ended(BlockId(1)));
        assert(b@.ended(BlockId(2)));
        assert(b@.ended(BlockId(3)));
        assert(b@.ended(BlockId(4)));
        assert(b@.ended(BlockId(5)));
        all_ended(b@);
    }
    b.finish()
}

/// Records that a task waits for another, unless what that one waits for
/// leads back to it.
#[verifier::opaque]
pub open spec fn wait_code(span: Span) -> FunctionView {
    let b = BuilderView {
        function: reserved_view("#task.wait"@, 2, TyView::Unit, span),
        current: BlockId(0),
        span,
    };
    let me = Value(0);
    let on = Value(1);
    let (b, this) = b.unboxed(me, erased_task_view());
    let (b, walk) = b.open_block();
    let (b, current) = b.open_param(walk, TyView::Dynamic);
    let (b, follow) = b.open_block();
    let (b, step) = b.open_block();
    let (b, cycle) = b.open_block();
    let (b, register) = b.open_block();
    let b = b.jump_with(walk, seq![on]);
    let b = b.switch_to(walk);
    let (b, held) = b.unboxed(current, erased_task_view());
    let (b, same) = b.equal(held, this);
    let b = b.branch(same, cycle, follow);
    let b = b.switch_to(follow);
    let (b, waiting) = b.get(held, WAITING, optional_dynamic_view());
    let (b, waits) = b.is_some(waiting);
    let b = b.branch(waits, step, register);
    let b = b.switch_to(step);
    let (b, next) = b.unwrap(waiting, TyView::Dynamic);
    let b = b.jump_with(walk, seq![next]);
    let b = b.switch_to(cycle);
    let b = b.panic("cyclic task await"@);
    let b = b.switch_to(register);
    let (b, target) = b.unboxed(on, erased_task_view());
    let (b, waiters) = b.get(target, WAITERS, list_of_dynamic_view());
    let b = b.emit_void(InstKindView::ListPush { receiver: waiters, value: me });
    let (b, some) = b.some(on);
    let b = b.set(this, WAITING, some);
    let (b, unit) = b.unit();
    let b = b.ret(unit);
    b.function
}

/// Writes [`wait_code`].
pub fn define_wait(span: Span) -> (done: Function)
    ensures
        done@ == wait_code(span),
        done@.well_formed(),
        done@.finished(),
{
    proof {
        reveal(wait_code);
    }
    let function = reserved("#task.wait", 2, Ty::Unit, span);
    let mut b = Builder::new(function, BlockId(0), span);
    let me = Value(0);
    let on = Value(1);
    let this = b.unboxed(me, erased_task());
    let walk = b.block();
    let current = b.param(walk, Ty::Dynamic);
    let follow = b.block();
    let step = b.block();
    let cycle = b.block();
    let register = b.block();
    b.jump_with(walk, one(on));

    b.switch_to(walk);
    let held = b.unboxed(current, erased_task());
    let same = b.equal(held, this);
    b.branch(same, cycle, follow);

    b.switch_to(follow);
    let waiting = b.get(held, WAITING, optional_dynamic());
    let waits = b.is_some(waiting);
    b.branch(waits, step, register);

    b.switch_to(step);
    let next = b.unwrap(waiting, Ty::Dynamic);
    b.jump_with(walk, one(next));

    b.switch_to(cycle);
    b.panic("cyclic task await");

    b.switch_to(register);
    let target = b.unboxed(on, erased_task());
    let waiters = b.get(target, WAITERS, list_of_dynamic());
    b.emit_void(InstKind::ListPush { receiver: waiters, value: me });
    let some = b.some(on);
    b.set(this, WAITING, some);
    let unit = b.unit();
    b.ret(unit);
    proof {
        assert(b@.ended(BlockId(0)));
        assert(b@.ended(BlockId(1)));
        assert(b@.ended(BlockId(2)));
        assert(b@.ended(BlockId(3)));
        assert(b@.ended(BlockId(4)));
        assert(b@.ended(BlockId(5)));
        all_ended(b@);
    }
    b.finish()
}

/// The first failure of a scope that no await observed, or nothing.
#[verifier::opaque]
pub open spec fn child_error_code(span: Span) -> FunctionView {
    let b = BuilderView {
        function: reserved_view("#task.childError"@, 1, optional_dynamic_view(), span),
        current: BlockId(0),
        span,
    };
    let task = Value(0);
    let (b, t) = b.unboxed(task, scope_type_view());
    let (b, failures) = b.get(t, SCOPE_FAILURES, list_of_dynamic_view());
    let (b, count) = b.length(failures);
    let (b, head) = b.open_block();
    let (b, index) = b.open_param(head, TyView::integer());
    let (b, body) = b.open_block();
    let (b, step) = b.open_block();
    let (b, found) = b.open_block();
    let (b, none) = b.open_block();
    let (b, zero) = b.integer(0);
    let b = b.jump_with(head, seq![zero]);
    let b = b.switch_to(head);
    let (b, finished) = b.equal(index, count);
    let b = b.branch(finished, none, body);
    let b = b.switch_to(body);
    let (b, child) = b.index(failures, index, TyView::Dynamic);
    let (b, c) = b.unboxed(child, erased_task_view());
    let (b, observed) = b.get(c, OBSERVED, TyView::Bool);
    let b = b.branch(observed, step, found);
    let b = b.switch_to(step);
    let (b, more) = b.integer(1);
    let (b, next) = b.plus(index, more);
    let b = b.jump_with(head, seq![next]);
    let b = b.switch_to(found);
    let (b, maybe) = b.get(c, COMPLETION, maybe_completion_view());
    let (b, completion) = b.unwrap(maybe, erased_completion_view());
    let (b, error) = b.put(InstKindView::GetPayload { value: completion, variant: 1, field: 0 }, TyView::Dynamic);
    let (b, some) = b.some(error);
    let b = b.ret(some);
    let b = b.switch_to(none);
    let (b, nil) = b.nil(optional_dynamic_view());
    let b = b.ret(nil);
    b.function
}

/// Writes [`child_error_code`].
pub fn define_child_error(span: Span) -> (done: Function)
    ensures
        done@ == child_error_code(span),
        done@.well_formed(),
        done@.finished(),
{
    proof {
        reveal(child_error_code);
    }
    let function = reserved("#task.childError", 1, optional_dynamic(), span);
    let mut b = Builder::new(function, BlockId(0), span);
    let task = Value(0);
    let t = b.unboxed(task, scope_type());
    let failures = b.get(t, SCOPE_FAILURES, list_of_dynamic());
    let count = b.length(failures);
    let head = b.block();
    let index = b.param(head, Ty::integer());
    let body = b.block();
    let step = b.block();
    let found = b.block();
    let none = b.block();
    let zero = b.integer(0);
    b.jump_with(head, one(zero));

    b.switch_to(head);
    let finished = b.equal(index, count);
    b.branch(finished, none, body);

    b.switch_to(body);
    let child = b.index(failures, index, Ty::Dynamic);
    let c = b.unboxed(child, erased_task());
    let observed = b.get(c, OBSERVED, Ty::Bool);
    b.branch(observed, step, found);

    b.switch_to(step);
    let more = b.integer(1);
    let next = b.plus(index, more);
    b.jump_with(head, one(next));

    b.switch_to(found);
    let maybe = b.get(c, COMPLETION, maybe_completion());
    let completion = b.unwrap(maybe, erased_completion());
    let error = b.emit(InstKind::GetPayload { value: completion, variant: 1, field: 0 }, Ty::Dynamic);
    let some = b.some(error);
    b.ret(some);

    b.switch_to(none);
    let nil = b.nil(optional_dynamic());
    b.ret(nil);
    proof {
        assert(b@.ended(BlockId(0)));
        assert(b@.ended(BlockId(1)));
        assert(b@.ended(BlockId(2)));
        assert(b@.ended(BlockId(3)));
        assert(b@.ended(BlockId(4)));
        assert(b@.ended(BlockId(5)));
        all_ended(b@);
    }
    b.finish()
}

/// Runs queued tasks in order until one has completed.
#[verifier::opaque]
pub open spec fn drive_code(runtime: Runtime, scheduler_ty: TyView, span: Span) -> FunctionView {
    let b = BuilderView {
        function: reserved_view("#task.drive"@, 2, TyView::Unit, span),
        current: BlockId(0),
        span,
    };
    let sched = Value(0);
    let until = Value(1);
    let (b, head) = b.open_block();
    let (b, step) = b.open_block();
    let (b, stuck) = b.open_block();
    let (b, pop) = b.open_block();
    let (b, reset) = b.open_block();
    let (b, run) = b.open_block();
    let (b, poll) = b.open_block();
    let (b, woken) = b.open_block();
    let (b, finished) = b.open_block();
    let b = b.jump(head);
    let b = b.switch_to(head);
    let (b, u) = b.unboxed(until, erased_task_view());
    let (b, awaited) = b.get(u, COMPLETION, maybe_completion_view());
    let (b, reached) = b.is_some(awaited);
    let b = b.branch(reached, finished, step);
    let b = b.switch_to(step);
    let (b, s) = b.unboxed(sched, scheduler_ty);
    let (b, queue) = b.get(s, QUEUE, list_of_dynamic_view());
    let (b, at) = b.get(s, HEAD, TyView::integer());
    let (b, count) = b.length(queue);
    let (b, empty) = b.equal(at, count);
    let b = b.branch(empty, stuck, pop);
    let b = b.switch_to(stuck);
    let b = b.panic("no runnable task"@);
    let b = b.switch_to(pop);
    let (b, task) = b.index(queue, at, TyView::Dynamic);
    let (b, more) = b.integer(1);
    let (b, after) = b.plus(at, more);
    let b = b.set(s, HEAD, after);
    let (b, drained) = b.equal(after, count);
    let b = b.branch(drained, reset, run);
    let b = b.switch_to(reset);
    let b = b.emit_void(InstKindView::Clear { receiver: queue });
    let (b, zero) = b.integer(0);
    let b = b.set(s, HEAD, zero);
    let b = b.jump(run);
    let b = b.switch_to(run);
    let (b, t) = b.unboxed(task, erased_task_view());
    let (b, no) = b.boolean(false);
    let b = b.set(t, QUEUED, no);
    let (b, completion) = b.get(t, COMPLETION, maybe_completion_view());
    let (b, completed) = b.is_some(completion);
    let b = b.branch(completed, head, poll);
    let b = b.switch_to(poll);
    let (b, closure) = b.get(t, POLL, poll_closure_view());
    let (b, done) = b.put(InstKindView::CallIndirect { callee: closure, args: Seq::empty() }, TyView::Bool);
    let b = b.branch(done, woken, head);
    let b = b.switch_to(woken);
    let (b, _) = b.call(runtime.wake, seq![task], TyView::Unit);
    let b = b.jump(head);
    let b = b.switch_to(finished);
    let (b, unit) = b.unit();
    let b = b.ret(unit);
    b.function
}

/// Writes [`drive_code`].
pub fn define_drive(runtime: Runtime, scheduler_ty: &Ty, span: Span) -> (done: Function)
    ensures
        done@ == drive_code(runtime, scheduler_ty@, span),
        done@.well_formed(),
        done@.finished(),
{
    proof {
        reveal(drive_code);
    }
    let function = reserved("#task.drive", 2, Ty::Unit, span);
    let mut b = Builder::new(function, BlockId(0), span);
    let sched = Value(0);
    let until = Value(1);
    let head = b.block();
    let step = b.block();
    let stuck = b.block();
    let pop = b.block();
    let reset = b.block();
    let run = b.block();
    let poll = b.block();
    let woken = b.block();
    let finished = b.block();
    b.jump(head);

    b.switch_to(head);
    let u = b.unboxed(until, erased_task());
    let awaited = b.get(u, COMPLETION, maybe_completion());
    let reached = b.is_some(awaited);
    b.branch(reached, finished, step);

    b.switch_to(step);
    let s = b.unboxed(sched, scheduler_ty.clone());
    let queue = b.get(s, QUEUE, list_of_dynamic());
    let at = b.get(s, HEAD, Ty::integer());
    let count = b.length(queue);
    let empty = b.equal(at, count);
    b.branch(empty, stuck, pop);

    b.switch_to(stuck);
    b.panic("no runnable task");

    b.switch_to(pop);
    let task = b.index(queue, at, Ty::Dynamic);
    let more = b.integer(1);
    let after = b.plus(at, more);
    b.set(s, HEAD, after);
    let drained = b.equal(after, count);
    b.branch(drained, reset, run);

    b.switch_to(reset);
    b.emit_void(InstKind::Clear { receiver: queue });
    let zero = b.integer(0);
    b.set(s, HEAD, zero);
    b.jump(run);

    b.switch_to(run);
    let t = b.unboxed(task, erased_task());
    let no = b.boolean(false);
    b.set(t, QUEUED, no);
    let completion = b.get(t, COMPLETION, maybe_completion());
    let completed = b.is_some(completion);
    b.branch(completed, head, poll);

    b.switch_to(poll);
    let closure = b.get(t, POLL, poll_closure());
    let done = b.emit(InstKind::CallIndirect { callee: closure, args: no_values() }, Ty::Bool);
    b.branch(done, woken, head);

    b.switch_to(woken);
    let _ = b.call(runtime.wake, one(task), Ty::Unit);
    b.jump(head);

    b.switch_to(finished);
    let unit = b.unit();
    b.ret(unit);
    proof {
        assert(b@.ended(BlockId(0)));
        assert(b@.ended(BlockId(1)));
        assert(b@.ended(BlockId(2)));
        assert(b@.ended(BlockId(3)));
        assert(b@.ended(BlockId(4)));
        assert(b@.ended(BlockId(5)));
        assert(b@.ended(BlockId(6)));
        assert(b@.ended(BlockId(7)));
        assert(b@.ended(BlockId(8)));
        assert(b@.ended(BlockId(9)));
        all_ended(b@);
    }
    b.finish()
}

} // verus!
