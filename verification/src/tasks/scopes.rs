//! Task-scope entry, spawning, and suspension at joins.

use vstd::prelude::*;

use crate::inst::{Allocation, InstKind, InstKindView, ScopeKind, Value, one, two};
use crate::program::{id_limit, BlockId};
use crate::ty::{Ty, TyView, TypeId};

use super::builder::{Builder, BuilderView};
use super::machine::{
    cancellation, cancellation_code, due_request, due_request_code, empty_list, empty_list_code,
    STATE,
};
use super::runtime::{
    maybe_completion, maybe_completion_view, maybe_scope, maybe_scope_view, optional_dynamic,
    optional_dynamic_view, Runtime,
};
use super::{
    scope_type, scope_type_view, ACTIVE_SCOPE, COMPLETION, DELIVERED, ROOT_SCOPE, SCOPE_PARENT,
    SCOPE_REQUEST, SCOPE_SHIELDED, STARTED, WAITING,
};

verus! {

fn five(a: Value, b: Value, c: Value, d: Value, e: Value) -> (list: Vec<Value>)
    ensures
        list@ == seq![a, b, c, d, e],
{
    let mut list: Vec<Value> = Vec::new();
    list.push(a);
    list.push(b);
    list.push(c);
    list.push(d);
    list.push(e);
    assert(list@ =~= seq![a, b, c, d, e]);
    list
}

/// Opens a scope: what follows receives it. The implicit one is there already;
/// work that runs though the task was cancelled is shielded from requests.
pub open spec fn open_code(
    b: BuilderView,
    me: Value,
    kind: ScopeKind,
    post: BlockId,
) -> BuilderView {
    let b = if kind is Implicit {
        let (b, root) = b.get(me, ROOT_SCOPE, scope_type_view());
        b.jump_with(post, seq![root])
    } else {
        let (b, outer) = b.get(me, ACTIVE_SCOPE, scope_type_view());
        let (b, request, shielded) = if kind is Cleanup {
            let (b, request) = b.nil(optional_dynamic_view());
            let (b, shielded) = b.boolean(true);
            (b, request, shielded)
        } else {
            let (b, request) = b.get(outer, SCOPE_REQUEST, optional_dynamic_view());
            let (b, shielded) = b.get(outer, SCOPE_SHIELDED, TyView::Bool);
            (b, request, shielded)
        };
        let (b, parent) = b.some(outer);
        let (b, children) = empty_list_code(b);
        let (b, failures) = empty_list_code(b);
        let (b, scope) = b.put(
            InstKindView::MakeStruct {
                ty: scope_type_view(),
                fields: seq![children, failures, request, parent, shielded],
                allocation: Allocation::Managed,
            },
            scope_type_view(),
        );
        let b = b.set(me, ACTIVE_SCOPE, scope);
        b.jump_with(post, seq![scope])
    };
    b
}

/// Opens a scope: what follows receives it. The implicit one is there already;
/// work that runs though the task was cancelled is shielded from requests.
pub fn open(b: &mut Builder, me: Value, kind: ScopeKind, post: BlockId)
    requires
        old(b)@.function.values.len() + 7 <= id_limit(),
        old(b)@.function.blocks.len() + 0 <= id_limit(),
        old(b)@.current.0 < old(b)@.function.blocks.len(),
    ensures
        final(b)@ == open_code(old(b)@, me, kind, post),
        final(b)@.keeps_ended(old(b)@),
        final(b)@.ended(old(b)@.current),
        old(b)@.sound() && me.0 < old(b)@.function.values.len() && post.0 < old(b)@.function.blocks.len() ==> final(b)@.sound(),
        old(b)@.function.values.len() <= final(b)@.function.values.len() <= old(b)@.function.values.len() + 7,
        old(b)@.function.blocks.len() <= final(b)@.function.blocks.len() <= old(b)@.function.blocks.len() + 0,
        final(b)@.function.slots.len() == old(b)@.function.slots.len(),
        final(b)@.current.0 < final(b)@.function.blocks.len(),
        final(b)@.current == old(b)@.current,
{
    if matches!(kind, ScopeKind::Implicit) {
        let root = b.get(me, ROOT_SCOPE, scope_type());
        b.jump_with(post, one(root));
        return;
    }
    let outer = b.get(me, ACTIVE_SCOPE, scope_type());
    let (request, shielded) = if matches!(kind, ScopeKind::Cleanup) {
        let request = b.nil(optional_dynamic());
        let shielded = b.boolean(true);
        (request, shielded)
    } else {
        let request = b.get(outer, SCOPE_REQUEST, optional_dynamic());
        let shielded = b.get(outer, SCOPE_SHIELDED, Ty::Bool);
        (request, shielded)
    };
    let parent = b.some(outer);
    let children = empty_list(b);
    let failures = empty_list(b);
    let fields = five(children, failures, request, parent, shielded);
    let scope = b.emit(
        InstKind::MakeStruct { ty: scope_type(), fields, allocation: Allocation::Managed },
        scope_type(),
    );
    b.set(me, ACTIVE_SCOPE, scope);
    b.jump_with(post, one(scope));
}

/// Closes a scope: the one around it, where there is one, takes its place.
pub open spec fn close_code(
    b: BuilderView,
    me: Value,
    scope: Value,
    post: BlockId,
) -> BuilderView {
    let (b, outer) = b.get(scope, SCOPE_PARENT, maybe_scope_view());
    let (b, nested) = b.is_some(outer);
    let (b, restore) = b.open_block();
    let b = b.branch(nested, restore, post);
    let b = b.switch_to(restore);
    let (b, parent) = b.unwrap(outer, scope_type_view());
    let b = b.set(me, ACTIVE_SCOPE, parent);
    let b = b.jump(post);
    b
}

/// Closes a scope: the one around it, where there is one, takes its place.
pub fn close(b: &mut Builder, me: Value, scope: Value, post: BlockId)
    requires
        old(b)@.function.values.len() + 3 <= id_limit(),
        old(b)@.function.blocks.len() + 1 <= id_limit(),
        old(b)@.current.0 < old(b)@.function.blocks.len(),
    ensures
        final(b)@ == close_code(old(b)@, me, scope, post),
        final(b)@.keeps_ended(old(b)@),
        final(b)@.ended(old(b)@.current),
        old(b)@.sound() && me.0 < old(b)@.function.values.len() && scope.0 < old(b)@.function.values.len() && post.0 < old(b)@.function.blocks.len() ==> final(b)@.sound(),
        final(b)@.function.values.len() == old(b)@.function.values.len() + 3,
        final(b)@.function.blocks.len() == old(b)@.function.blocks.len() + 1,
        final(b)@.function.slots.len() == old(b)@.function.slots.len(),
        final(b)@.current.0 < final(b)@.function.blocks.len(),
{
    let outer = b.get(scope, SCOPE_PARENT, maybe_scope());
    let nested = b.is_some(outer);
    let restore = b.block();
    b.branch(nested, restore, post);

    b.switch_to(restore);
    let parent = b.unwrap(outer, scope_type());
    b.set(me, ACTIVE_SCOPE, parent);
    b.jump(post);
}

/// Asks a scope to stop, and with it every child it has.
pub open spec fn cancel_code(
    b: BuilderView,
    runtime: Runtime,
    scope: Value,
    error: Value,
) -> BuilderView {
    let (b, request) = b.some(error);
    let b = b.set(scope, SCOPE_REQUEST, request);
    let (b, boxed) = b.boxed(scope);
    let (b, _) = b.call(runtime.cancel_scope, seq![boxed, error], TyView::Unit);
    b
}

/// Asks a scope to stop, and with it every child it has.
pub fn cancel(b: &mut Builder, runtime: Runtime, scope: Value, error: Value)
    requires
        old(b)@.function.values.len() + 3 <= id_limit(),
        old(b)@.function.blocks.len() + 0 <= id_limit(),
        old(b)@.current.0 < old(b)@.function.blocks.len(),
        error.0 < old(b)@.function.values.len(),
    ensures
        final(b)@ == cancel_code(old(b)@, runtime, scope, error),
        final(b)@.keeps_ended(old(b)@),
        old(b)@.sound() && scope.0 < old(b)@.function.values.len() && error.0 < old(b)@.function.values.len() ==> final(b)@.sound(),
        final(b)@.function.values.len() == old(b)@.function.values.len() + 3,
        final(b)@.function.blocks.len() == old(b)@.function.blocks.len() + 0,
        final(b)@.function.slots.len() == old(b)@.function.slots.len(),
        final(b)@.current.0 < final(b)@.function.blocks.len(),
        final(b)@.current == old(b)@.current,
{
    let request = b.some(error);
    b.set(scope, SCOPE_REQUEST, request);
    let boxed = b.boxed(scope);
    let _ = b.call(runtime.cancel_scope, two(boxed, error), Ty::Unit);
}

/// Starts a task in a scope. Only a task that has neither started nor completed
/// can be.
pub open spec fn spawn_code(
    b: BuilderView,
    runtime: Runtime,
    me: Value,
    scope: Value,
    task: Value,
    post: BlockId,
) -> BuilderView {
    let (b, started) = b.get(task, STARTED, TyView::Bool);
    let (b, completion) = b.get(task, COMPLETION, maybe_completion_view());
    let (b, completed) = b.is_some(completion);
    let (b, check) = b.open_block();
    let (b, refuse) = b.open_block();
    let (b, start) = b.open_block();
    let b = b.branch(started, refuse, check);
    let b = b.switch_to(check);
    let b = b.branch(completed, refuse, start);
    let b = b.switch_to(refuse);
    let b = b.panic("spawn requires an unstarted task"@);
    let b = b.switch_to(start);
    let (b, active) = b.get(me, ACTIVE_SCOPE, scope_type_view());
    let b = b.set(me, ACTIVE_SCOPE, scope);
    let (b, parent) = b.boxed(me);
    let (b, child) = b.boxed(task);
    let (b, _) = b.call(runtime.start, seq![parent, child], TyView::Unit);
    let b = b.set(me, ACTIVE_SCOPE, active);
    let b = b.jump_with(post, seq![task]);
    b
}

/// Starts a task in a scope. Only a task that has neither started nor completed
/// can be.
pub fn spawn(b: &mut Builder, runtime: Runtime, me: Value, scope: Value, task: Value, post: BlockId)
    requires
        old(b)@.function.values.len() + 8 <= id_limit(),
        old(b)@.function.blocks.len() + 3 <= id_limit(),
        old(b)@.current.0 < old(b)@.function.blocks.len(),
    ensures
        final(b)@ == spawn_code(old(b)@, runtime, me, scope, task, post),
        final(b)@.keeps_ended(old(b)@),
        final(b)@.ended(old(b)@.current),
        old(b)@.sound() && me.0 < old(b)@.function.values.len() && scope.0 < old(b)@.function.values.len() && task.0 < old(b)@.function.values.len() && post.0 < old(b)@.function.blocks.len() ==> final(b)@.sound(),
        final(b)@.function.values.len() == old(b)@.function.values.len() + 8,
        final(b)@.function.blocks.len() == old(b)@.function.blocks.len() + 3,
        final(b)@.function.slots.len() == old(b)@.function.slots.len(),
        final(b)@.current.0 < final(b)@.function.blocks.len(),
{
    let started = b.get(task, STARTED, Ty::Bool);
    let completion = b.get(task, COMPLETION, maybe_completion());
    let completed = b.is_some(completion);
    let check = b.block();
    let refuse = b.block();
    let start = b.block();
    b.branch(started, refuse, check);

    b.switch_to(check);
    b.branch(completed, refuse, start);

    b.switch_to(refuse);
    b.panic("spawn requires an unstarted task");

    b.switch_to(start);
    let active = b.get(me, ACTIVE_SCOPE, scope_type());
    b.set(me, ACTIVE_SCOPE, scope);
    let parent = b.boxed(me);
    let child = b.boxed(task);
    let _ = b.call(runtime.start, two(parent, child), Ty::Unit);
    b.set(me, ACTIVE_SCOPE, active);
    b.jump_with(post, one(task));
}

/// Waits for every child of a scope: what follows receives the error the scope
/// ends with, if any. A scope left early is cancelled first; an error that is
/// already propagating takes the place of any other.
pub open spec fn join_code(
    b: BuilderView,
    runtime: Runtime,
    frame: Value,
    me: Value,
    scope: Value,
    abrupt: bool,
    propagating: bool,
    cancelled: Option<TypeId>,
    state: u64,
    post: BlockId,
) -> (BuilderView, BlockId) {
    let b = if abrupt {
        let (b, reason) = cancellation_code(b, cancelled);
        cancel_code(b, runtime, scope, reason)
    } else {
        b
    };
    let (b, retry) = b.open_block();
    let (b, error) = b.open_param(retry, optional_dynamic_view());
    let (b, inspect) = b.open_block();
    let (b, deliver) = b.open_block();
    let (b, wait) = b.open_block();
    let (b, complete) = b.open_block();
    let (b, resume) = b.open_block();
    let (b, none) = b.nil(optional_dynamic_view());
    let b = b.jump_with(retry, seq![none]);
    let b = b.switch_to(retry);
    let (b, (request, due)) = due_request_code(b, me);
    let b = b.branch(due, deliver, inspect);
    let b = b.switch_to(deliver);
    let (b, yes) = b.boolean(true);
    let b = b.set(me, DELIVERED, yes);
    let (b, exception) = b.unwrap(request, TyView::Dynamic);
    let b = cancel_code(b, runtime, scope, exception);
    let b = b.jump_with(retry, seq![request]);
    let b = b.switch_to(inspect);
    let (b, boxed_scope) = b.boxed(scope);
    let (b, next) = b.call(runtime.next_child, seq![boxed_scope], optional_dynamic_view());
    let (b, pending) = b.is_some(next);
    let b = b.branch(pending, wait, complete);
    let b = b.switch_to(wait);
    let (b, child) = b.unwrap(next, TyView::Dynamic);
    let (b, boxed_me) = b.boxed(me);
    let (b, _) = b.call(runtime.wait, seq![boxed_me, child], TyView::Unit);
    let (b, suspended) = b.integer(state);
    let b = b.set(frame, STATE, suspended);
    let (b, no) = b.boolean(false);
    let b = b.ret(no);
    let b = b.switch_to(resume);
    let (b, nothing) = b.nil(optional_dynamic_view());
    let b = b.set(me, WAITING, nothing);
    let b = b.jump_with(retry, seq![error]);
    let b = b.switch_to(complete);
    let b = if propagating {
        let (b, absent) = b.nil(optional_dynamic_view());
        b.jump_with(post, seq![absent])
    } else {
        let (b, requested) = b.is_some(error);
        let (b, preserve) = b.open_block();
        let (b, select) = b.open_block();
        let b = b.branch(requested, preserve, select);
        let b = b.switch_to(preserve);
        let b = b.jump_with(post, seq![error]);
        let b = b.switch_to(select);
        let (b, handle) = b.boxed(scope);
        let (b, failure) = b.call(runtime.child_error, seq![handle], optional_dynamic_view());
        b.jump_with(post, seq![failure])
    };
    (b, resume)
}

/// Waits for every child of a scope: what follows receives the error the scope
/// ends with, if any. A scope left early is cancelled first; an error that is
/// already propagating takes the place of any other.
pub fn join(b: &mut Builder, runtime: Runtime, frame: Value, me: Value, scope: Value, abrupt: bool, propagating: bool, cancelled: Option<TypeId>, state: u64, post: BlockId) -> (result: BlockId)
    requires
        old(b)@.function.values.len() + 32 <= id_limit(),
        old(b)@.function.blocks.len() + 8 <= id_limit(),
        old(b)@.current.0 < old(b)@.function.blocks.len(),
    ensures
        (final(b)@, result) == join_code(old(b)@, runtime, frame, me, scope, abrupt, propagating, cancelled, state, post),
        final(b)@.keeps_ended(old(b)@),
        final(b)@.ended(old(b)@.current),
        old(b)@.sound() && frame.0 < old(b)@.function.values.len() && me.0 < old(b)@.function.values.len() && scope.0 < old(b)@.function.values.len() && post.0 < old(b)@.function.blocks.len() ==> final(b)@.sound(),
        old(b)@.function.values.len() <= final(b)@.function.values.len() <= old(b)@.function.values.len() + 32,
        old(b)@.function.blocks.len() <= final(b)@.function.blocks.len() <= old(b)@.function.blocks.len() + 8,
        final(b)@.function.slots.len() == old(b)@.function.slots.len(),
        final(b)@.current.0 < final(b)@.function.blocks.len(),
        result.0 < final(b)@.function.blocks.len(),
{
    if abrupt {
        let reason = cancellation(b, cancelled);
        cancel(b, runtime, scope, reason);
    }
    let retry = b.block();
    let error = b.param(retry, optional_dynamic());
    let inspect = b.block();
    let deliver = b.block();
    let wait = b.block();
    let complete = b.block();
    let resume = b.block();
    let none = b.nil(optional_dynamic());
    b.jump_with(retry, one(none));

    b.switch_to(retry);
    let (request, due) = due_request(b, me);
    b.branch(due, deliver, inspect);

    b.switch_to(deliver);
    let yes = b.boolean(true);
    b.set(me, DELIVERED, yes);
    let exception = b.unwrap(request, Ty::Dynamic);
    cancel(b, runtime, scope, exception);
    b.jump_with(retry, one(request));

    b.switch_to(inspect);
    let boxed_scope = b.boxed(scope);
    let next = b.call(runtime.next_child, one(boxed_scope), optional_dynamic());
    let pending = b.is_some(next);
    b.branch(pending, wait, complete);

    b.switch_to(wait);
    let child = b.unwrap(next, Ty::Dynamic);
    let boxed_me = b.boxed(me);
    let _ = b.call(runtime.wait, two(boxed_me, child), Ty::Unit);
    let suspended = b.integer(state);
    b.set(frame, STATE, suspended);
    let no = b.boolean(false);
    b.ret(no);

    b.switch_to(resume);
    let nothing = b.nil(optional_dynamic());
    b.set(me, WAITING, nothing);
    b.jump_with(retry, one(error));

    b.switch_to(complete);
    if propagating {
        let absent = b.nil(optional_dynamic());
        b.jump_with(post, one(absent));
    } else {
        let requested = b.is_some(error);
        let preserve = b.block();
        let select = b.block();
        b.branch(requested, preserve, select);
        b.switch_to(preserve);
        b.jump_with(post, one(error));
        b.switch_to(select);
        let handle = b.boxed(scope);
        let failure = b.call(runtime.child_error, one(handle), optional_dynamic());
        b.jump_with(post, one(failure));
    }
    resume
}

} // verus!
