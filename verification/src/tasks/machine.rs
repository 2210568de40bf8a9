//! One asynchronous function as a state machine.
//!
//! The function keeps its name and becomes the call that builds the task: it
//! allocates a frame holding its arguments, and a task whose `poll` closure
//! runs the body over that frame. The body moves to `name#poll`, entered
//! through a switch on the frame's state. Every value live across a
//! suspension lives in the frame: stored where it is defined, loaded where
//! it is used.

use vstd::prelude::*;

use crate::inst::{Allocation, Const, ConstView, InstKind, InstKindView, Value, no_values, one, two};
use crate::program::{id_limit, BlockId};
use crate::ty::{Ty, TyView, TypeId};

use super::builder::{Builder, BuilderView};
use super::runtime::{optional_dynamic, optional_dynamic_view, Runtime};
use super::{
    list_of_dynamic, list_of_dynamic_view, named, named_view, optional_of, optional_of_view,
    COMPLETION, DELIVERED, REQUEST, STARTED, WAITING,
};

verus! {

/// Where the function is to resume. This and the next two are the frame's
/// fixed fields. The parameters follow, and after them the spilled values.
pub const STATE: u32 = 0;

/// The task the frame belongs to.
pub const TASK: u32 = 1;

/// What the body ended with.
pub const RESULT: u32 = 2;

/// The first parameter.
pub const FIRST_PARAM: u32 = 3;

/// The state the scope join resumes at. Await sites count up from the next.
pub const JOIN: u64 = 1;

/// What cancellation delivers: `Cancelled {}` where that type is there, an
/// error that says so where it is not.
pub open spec fn cancellation_code(
    b: BuilderView,
    cancelled: Option<TypeId>,
) -> (BuilderView, Value) {
    let (b, error) = match cancelled {
        Some(id) => b.put(
            InstKindView::MakeStruct {
                ty: named_view(id),
                fields: Seq::empty(),
                allocation: Allocation::Managed,
            },
            named_view(id),
        ),
        None => {
            let (b, message) = b.put(
                InstKindView::Const(ConstView::Str("cancelled"@)),
                TyView::Str,
            );
            b.put(InstKindView::MakeError { message }, TyView::Error)
        },
    };
    b.boxed(error)
}

/// What cancellation delivers.
pub fn cancellation(b: &mut Builder, cancelled: Option<TypeId>) -> (error: Value)
    requires
        old(b)@.function.values.len() + 3 <= id_limit(),
        old(b)@.current.0 < old(b)@.function.blocks.len(),
    ensures
        (final(b)@, error) == cancellation_code(old(b)@, cancelled),
        final(b)@.keeps_ended(old(b)@),
        old(b)@.sound() ==> final(b)@.sound(),
        old(b)@.function.values.len() < final(b)@.function.values.len()
            <= old(b)@.function.values.len() + 3,
        final(b)@.function.blocks.len() == old(b)@.function.blocks.len(),
        final(b)@.function.slots.len() == old(b)@.function.slots.len(),
        final(b)@.current == old(b)@.current,
        error.0 < final(b)@.function.values.len(),
{
    let error = match cancelled {
        Some(id) => {
            let fields: Vec<Value> = Vec::new();
            assert(fields@ =~= Seq::empty());
            b.emit(
                InstKind::MakeStruct { ty: named(id), fields, allocation: Allocation::Managed },
                named(id),
            )
        },
        None => {
            let message = b.emit(InstKind::Const(Const::Str("cancelled".to_owned())), Ty::Str);
            b.emit(InstKind::MakeError { message }, Ty::Error)
        },
    };
    b.boxed(error)
}

/// The request a task has pending, and whether it is still to be delivered.
pub open spec fn due_request_code(
    b: BuilderView,
    me: Value,
) -> (BuilderView, (Value, Value)) {
    let (b, request) = b.get(me, REQUEST, optional_dynamic_view());
    let (b, delivered) = b.get(me, DELIVERED, TyView::Bool);
    let (b, pending) = b.is_some(request);
    let (b, undelivered) = b.not(delivered);
    let (b, due) = b.and(pending, undelivered);
    (b, (request, due))
}

/// The request a task has pending, and whether it is still to be delivered.
pub fn due_request(b: &mut Builder, me: Value) -> (result: (Value, Value))
    requires
        old(b)@.function.values.len() + 5 <= id_limit(),
        old(b)@.function.blocks.len() + 0 <= id_limit(),
        old(b)@.current.0 < old(b)@.function.blocks.len(),
    ensures
        (final(b)@, result) == due_request_code(old(b)@, me),
        final(b)@.keeps_ended(old(b)@),
        old(b)@.sound() && me.0 < old(b)@.function.values.len() ==> final(b)@.sound(),
        final(b)@.function.values.len() == old(b)@.function.values.len() + 5,
        final(b)@.function.blocks.len() == old(b)@.function.blocks.len() + 0,
        final(b)@.function.slots.len() == old(b)@.function.slots.len(),
        final(b)@.current.0 < final(b)@.function.blocks.len(),
        final(b)@.current == old(b)@.current,
        result.0.0 < final(b)@.function.values.len(),
        result.1.0 < final(b)@.function.values.len(),
{
    let request = b.get(me, REQUEST, optional_dynamic());
    let delivered = b.get(me, DELIVERED, Ty::Bool);
    let pending = b.is_some(request);
    let undelivered = b.not(delivered);
    let due = b.and(pending, undelivered);
    (request, due)
}

/// Marks the request delivered, and builds the completion that carries it.
pub open spec fn deliver_code(
    b: BuilderView,
    me: Value,
    request: Value,
    completion_ty: TyView,
) -> (BuilderView, Value) {
    let (b, yes) = b.boolean(true);
    let b = b.set(me, DELIVERED, yes);
    let (b, error) = b.unwrap(request, TyView::Dynamic);
    let (b, failed) = b.put(InstKindView::MakeEnum { ty: completion_ty, variant: 1, payload: seq![error] }, completion_ty);
    (b, failed)
}

/// Marks the request delivered, and builds the completion that carries it.
pub fn deliver(b: &mut Builder, me: Value, request: Value, completion_ty: &Ty) -> (result: Value)
    requires
        old(b)@.function.values.len() + 3 <= id_limit(),
        old(b)@.function.blocks.len() + 0 <= id_limit(),
        old(b)@.current.0 < old(b)@.function.blocks.len(),
    ensures
        (final(b)@, result) == deliver_code(old(b)@, me, request, completion_ty@),
        final(b)@.keeps_ended(old(b)@),
        old(b)@.sound() && me.0 < old(b)@.function.values.len() && request.0 < old(b)@.function.values.len() ==> final(b)@.sound(),
        final(b)@.function.values.len() == old(b)@.function.values.len() + 3,
        final(b)@.function.blocks.len() == old(b)@.function.blocks.len() + 0,
        final(b)@.function.slots.len() == old(b)@.function.slots.len(),
        final(b)@.current.0 < final(b)@.function.blocks.len(),
        final(b)@.current == old(b)@.current,
        result.0 < final(b)@.function.values.len(),
{
    let yes = b.boolean(true);
    b.set(me, DELIVERED, yes);
    let error = b.unwrap(request, Ty::Dynamic);
    let failed = b.emit(InstKind::MakeEnum { ty: completion_ty.clone(), variant: 1, payload: one(error) }, completion_ty.clone());
    failed
}

/// Whether a completion carries an error.
pub open spec fn threw_code(
    b: BuilderView,
    completion: Value,
) -> (BuilderView, Value) {
    let (b, tag) = b.put(InstKindView::GetTag { value: completion }, TyView::integer());
    let (b, first) = b.integer(1);
    let (b, failed) = b.equal(tag, first);
    (b, failed)
}

/// Whether a completion carries an error.
pub fn threw(b: &mut Builder, completion: Value) -> (result: Value)
    requires
        old(b)@.function.values.len() + 3 <= id_limit(),
        old(b)@.function.blocks.len() + 0 <= id_limit(),
        old(b)@.current.0 < old(b)@.function.blocks.len(),
    ensures
        (final(b)@, result) == threw_code(old(b)@, completion),
        final(b)@.keeps_ended(old(b)@),
        old(b)@.sound() && completion.0 < old(b)@.function.values.len() ==> final(b)@.sound(),
        final(b)@.function.values.len() == old(b)@.function.values.len() + 3,
        final(b)@.function.blocks.len() == old(b)@.function.blocks.len() + 0,
        final(b)@.function.slots.len() == old(b)@.function.slots.len(),
        final(b)@.current.0 < final(b)@.function.blocks.len(),
        final(b)@.current == old(b)@.current,
        result.0 < final(b)@.function.values.len(),
{
    let tag = b.emit(InstKind::GetTag { value: completion }, Ty::integer());
    let first = b.integer(1);
    let failed = b.equal(tag, first);
    failed
}

/// A list with nothing in it.
pub open spec fn empty_list_code(
    b: BuilderView,
) -> (BuilderView, Value) {
    let (b, list) = b.put(InstKindView::MakeList { element: TyView::Dynamic, values: Seq::empty() }, list_of_dynamic_view());
    (b, list)
}

/// A list with nothing in it.
pub fn empty_list(b: &mut Builder) -> (result: Value)
    requires
        old(b)@.function.values.len() + 1 <= id_limit(),
        old(b)@.function.blocks.len() + 0 <= id_limit(),
        old(b)@.current.0 < old(b)@.function.blocks.len(),
    ensures
        (final(b)@, result) == empty_list_code(old(b)@),
        final(b)@.keeps_ended(old(b)@),
        old(b)@.sound() ==> final(b)@.sound(),
        final(b)@.function.values.len() == old(b)@.function.values.len() + 1,
        final(b)@.function.blocks.len() == old(b)@.function.blocks.len() + 0,
        final(b)@.function.slots.len() == old(b)@.function.slots.len(),
        final(b)@.current.0 < final(b)@.function.blocks.len(),
        final(b)@.current == old(b)@.current,
        result.0 < final(b)@.function.values.len(),
{
    let list = b.emit(InstKind::MakeList { element: Ty::Dynamic, values: no_values() }, list_of_dynamic());
    list
}

/// A place a cancelled task stops at: what follows receives the request where
/// one is due, and nothing where none is.
pub open spec fn expand_point_code(
    b: BuilderView,
    me: Value,
    post: BlockId,
) -> BuilderView {
    let (b, (request, due)) = due_request_code(b, me);
    let (b, deliver) = b.open_block();
    let (b, skip) = b.open_block();
    let b = b.branch(due, deliver, skip);
    let b = b.switch_to(deliver);
    let (b, yes) = b.boolean(true);
    let b = b.set(me, DELIVERED, yes);
    let b = b.jump_with(post, seq![request]);
    let b = b.switch_to(skip);
    let (b, none) = b.nil(optional_dynamic_view());
    let b = b.jump_with(post, seq![none]);
    b
}

/// A place a cancelled task stops at: what follows receives the request where
/// one is due, and nothing where none is.
pub fn expand_point(b: &mut Builder, me: Value, post: BlockId)
    requires
        old(b)@.function.values.len() + 7 <= id_limit(),
        old(b)@.function.blocks.len() + 2 <= id_limit(),
        old(b)@.current.0 < old(b)@.function.blocks.len(),
    ensures
        final(b)@ == expand_point_code(old(b)@, me, post),
        final(b)@.keeps_ended(old(b)@),
        final(b)@.ended(old(b)@.current),
        old(b)@.sound() && me.0 < old(b)@.function.values.len() && post.0 < old(b)@.function.blocks.len() ==> final(b)@.sound(),
        final(b)@.function.values.len() == old(b)@.function.values.len() + 7,
        final(b)@.function.blocks.len() == old(b)@.function.blocks.len() + 2,
        final(b)@.function.slots.len() == old(b)@.function.slots.len(),
        final(b)@.current.0 < final(b)@.function.blocks.len(),
{
    let (request, due) = due_request(b, me);
    let deliver = b.block();
    let skip = b.block();
    b.branch(due, deliver, skip);

    b.switch_to(deliver);
    let yes = b.boolean(true);
    b.set(me, DELIVERED, yes);
    b.jump_with(post, one(request));

    b.switch_to(skip);
    let none = b.nil(optional_dynamic());
    b.jump_with(post, one(none));
}

/// Waits for a task: what follows receives its completion once there is one.
/// Otherwise the task is started where it is unstarted, the wait is recorded,
/// and the function is left at `state`. Where it resumes, a request that is due
/// is delivered first.
pub open spec fn expand_await_code(
    b: BuilderView,
    runtime: Runtime,
    frame: Value,
    me: Value,
    task: Value,
    completion_ty: TyView,
    state: u64,
    post: BlockId,
) -> (BuilderView, BlockId) {
    let (b, retry) = b.open_block();
    let (b, ready) = b.open_block();
    let (b, check) = b.open_block();
    let (b, start) = b.open_block();
    let (b, wait) = b.open_block();
    let (b, resume) = b.open_block();
    let (b, deliver_here) = b.open_block();
    let b = b.jump(retry);
    let b = b.switch_to(retry);
    let (b, completion) = b.get(task, COMPLETION, optional_of_view(completion_ty));
    let (b, has) = b.is_some(completion);
    let b = b.branch(has, ready, check);
    let b = b.switch_to(ready);
    let (b, held) = b.unwrap(completion, completion_ty);
    let b = b.jump_with(post, seq![held]);
    let b = b.switch_to(check);
    let (b, started) = b.get(task, STARTED, TyView::Bool);
    let b = b.branch(started, wait, start);
    let b = b.switch_to(start);
    let (b, parent) = b.boxed(me);
    let (b, child) = b.boxed(task);
    let (b, _) = b.call(runtime.start, seq![parent, child], TyView::Unit);
    let b = b.jump(wait);
    let b = b.switch_to(wait);
    let (b, waiter) = b.boxed(me);
    let (b, on) = b.boxed(task);
    let (b, _) = b.call(runtime.wait, seq![waiter, on], TyView::Unit);
    let (b, suspended) = b.integer(state);
    let b = b.set(frame, STATE, suspended);
    let (b, no) = b.boolean(false);
    let b = b.ret(no);
    let b = b.switch_to(resume);
    let (b, none) = b.nil(optional_dynamic_view());
    let b = b.set(me, WAITING, none);
    let (b, (request, due)) = due_request_code(b, me);
    let b = b.branch(due, deliver_here, retry);
    let b = b.switch_to(deliver_here);
    let (b, failed) = deliver_code(b, me, request, completion_ty);
    let b = b.jump_with(post, seq![failed]);
    (b, resume)
}

/// Waits for a task: what follows receives its completion once there is one.
/// Otherwise the task is started where it is unstarted, the wait is recorded,
/// and the function is left at `state`. Where it resumes, a request that is due
/// is delivered first.
pub fn expand_await(b: &mut Builder, runtime: Runtime, frame: Value, me: Value, task: Value, completion_ty: &Ty, state: u64, post: BlockId) -> (result: BlockId)
    requires
        old(b)@.function.values.len() + 21 <= id_limit(),
        old(b)@.function.blocks.len() + 7 <= id_limit(),
        old(b)@.current.0 < old(b)@.function.blocks.len(),
    ensures
        (final(b)@, result) == expand_await_code(old(b)@, runtime, frame, me, task, completion_ty@, state, post),
        final(b)@.keeps_ended(old(b)@),
        final(b)@.ended(old(b)@.current),
        old(b)@.sound() && frame.0 < old(b)@.function.values.len() && me.0 < old(b)@.function.values.len() && task.0 < old(b)@.function.values.len() && post.0 < old(b)@.function.blocks.len() ==> final(b)@.sound(),
        final(b)@.function.values.len() == old(b)@.function.values.len() + 21,
        final(b)@.function.blocks.len() == old(b)@.function.blocks.len() + 7,
        final(b)@.function.slots.len() == old(b)@.function.slots.len(),
        final(b)@.current.0 < final(b)@.function.blocks.len(),
        result.0 < final(b)@.function.blocks.len(),
{
    let retry = b.block();
    let ready = b.block();
    let check = b.block();
    let start = b.block();
    let wait = b.block();
    let resume = b.block();
    let deliver_here = b.block();
    b.jump(retry);

    b.switch_to(retry);
    let completion = b.get(task, COMPLETION, optional_of(completion_ty.clone()));
    let has = b.is_some(completion);
    b.branch(has, ready, check);

    b.switch_to(ready);
    let held = b.unwrap(completion, completion_ty.clone());
    b.jump_with(post, one(held));

    b.switch_to(check);
    let started = b.get(task, STARTED, Ty::Bool);
    b.branch(started, wait, start);

    b.switch_to(start);
    let parent = b.boxed(me);
    let child = b.boxed(task);
    let _ = b.call(runtime.start, two(parent, child), Ty::Unit);
    b.jump(wait);

    b.switch_to(wait);
    let waiter = b.boxed(me);
    let on = b.boxed(task);
    let _ = b.call(runtime.wait, two(waiter, on), Ty::Unit);
    let suspended = b.integer(state);
    b.set(frame, STATE, suspended);
    let no = b.boolean(false);
    b.ret(no);

    b.switch_to(resume);
    let none = b.nil(optional_dynamic());
    b.set(me, WAITING, none);
    let (request, due) = due_request(b, me);
    b.branch(due, deliver_here, retry);

    b.switch_to(deliver_here);
    let failed = deliver(b, me, request, completion_ty);
    b.jump_with(post, one(failed));
    resume
}

} // verus!
