//! One asynchronous function as the call that builds its task, and the body
//! the task runs.

use vstd::prelude::*;

use crate::inst::{
    Allocation, Const, ConstView, FloatLiteral, InstKind, InstKindView, Target, TargetView,
    Terminator, TerminatorView, Trap, Value, case_views, clone_values, one, push_values, two,
    values_within,
};
use crate::lower::{Gap, GapView};
use crate::program::{
    fresh_is_well_formed, id_limit, views, BlockId, Field, FieldView, FuncId, Function,
    FunctionView, Nominal, NominalView, Program, ProgramView, Shape, ShapeView, Struct,
    StructView,
};
use crate::ty::{clone_tys, tys, Builtin, Ty, TyView, TypeId};

use super::builder::{Builder, BuilderView};
use super::frame::{
    find_survivors, first_fields, frame_fields, laid_out, lay_out, survivors,
};
use super::machine::{
    cancellation, cancellation_code, deliver, deliver_code, due_request, due_request_code,
    empty_list, empty_list_code, threw, threw_code, FIRST_PARAM, JOIN, RESULT, STATE, TASK,
};
use super::runtime::{optional_dynamic, optional_dynamic_view, Runtime};
use super::spill::{spill, spilled};
use super::split::{
    block_points, blocks_expanded, expand_blocks, points_fit, Context, Expanding, Expansion,
};
use super::{
    list_of_dynamic_view, named, named_view, one_ty, optional_of, optional_of_view, poll_closure,
    poll_closure_view, result_of_view, task_fields_view, COMPLETION, WAITING,
};

verus! {

/// What the parts of a body are called that every asynchronous function has.
#[derive(Debug, Clone, Copy, PartialEq, Eq, Structural)]
pub struct Poll {
    /// Where the body goes with what it ends with, and what it ends with there.
    pub finish: BlockId,
    pub ended: Value,
    /// Where it is entered.
    pub entry: BlockId,
    /// The closure it is entered through, the frame that holds, and the task and
    /// the state the frame holds.
    pub closure: Value,
    pub frame: Value,
    pub me: Value,
    pub state: Value,
    /// Where a state nothing gave leads.
    pub nowhere: BlockId,
    /// Where it begins.
    pub begin: BlockId,
    /// Where it resumes once a child completed.
    pub resume_join: BlockId,
}

impl Poll {
    /// Whether all of them are in what has been written.
    pub open spec fn within(self, b: BuilderView) -> bool {
        let values = b.function.values.len();
        let blocks = b.function.blocks.len();
        &&& self.finish.0 < blocks && self.entry.0 < blocks && self.nowhere.0 < blocks
        &&& self.begin.0 < blocks && self.resume_join.0 < blocks
        &&& self.ended.0 < values && self.closure.0 < values && self.frame.0 < values
        &&& self.me.0 < values && self.state.0 < values
    }
}

/// Opens the body: its entry, which reads the frame, and the blocks the rest is
/// written into.
pub open spec fn open_poll_code(
    b: BuilderView,
    completion_ty: TyView,
    frame_ty: TyView,
    task_ty: TyView,
) -> (BuilderView, Poll) {
    let (b, finish) = b.open_block();
    let (b, ended) = b.open_param(finish, completion_ty);
    let (b, entry) = b.open_block();
    let (b, closure) = b.open_param(entry, poll_closure_view());
    let b = b.switch_to(entry);
    let (b, frame) = b.get(closure, 1, frame_ty);
    let (b, me) = b.get(frame, TASK, task_ty);
    let (b, state) = b.get(frame, STATE, TyView::integer());
    let (b, nowhere) = b.open_block();
    let b = b.switch_to(nowhere);
    let b = b.terminate(TerminatorView::Trap(Trap::Unreachable));
    let (b, begin) = b.open_block();
    let (b, resume_join) = b.open_block();
    (
        b,
        Poll {
            finish,
            ended,
            entry,
            closure,
            frame,
            me,
            state,
            nowhere,
            begin,
            resume_join,
        },
    )
}

/// Opens the body: its entry, which reads the frame, and the blocks the rest is
/// written into.
pub fn open_poll(b: &mut Builder, completion_ty: &Ty, frame_ty: &Ty, task_ty: &Ty) -> (poll: Poll)
    requires
        old(b)@.function.values.len() + 5 <= id_limit(),
        old(b)@.function.blocks.len() + 5 <= id_limit(),
        old(b)@.sound(),
    ensures
        (final(b)@, poll) == open_poll_code(old(b)@, completion_ty@, frame_ty@, task_ty@),
        final(b)@.sound(),
        final(b)@.function.values.len() == old(b)@.function.values.len() + 5,
        final(b)@.function.blocks.len() == old(b)@.function.blocks.len() + 5,
        final(b)@.function.slots.len() == old(b)@.function.slots.len(),
        poll.within(final(b)@),
{
    let finish = b.block();
    let ended = b.param(finish, completion_ty.clone());
    let entry = b.block();
    let closure = b.param(entry, poll_closure());
    b.switch_to(entry);
    let frame = b.get(closure, 1, frame_ty.clone());
    let me = b.get(frame, TASK, task_ty.clone());
    let state = b.get(frame, STATE, Ty::integer());
    let nowhere = b.block();

    b.switch_to(nowhere);
    b.terminate(Terminator::Trap(Trap::Unreachable));
    let begin = b.block();
    let resume_join = b.block();
    Poll {
        finish,
        ended,
        entry,
        closure,
        frame,
        me,
        state,
        nowhere,
        begin,
        resume_join,
    }
}

/// Reads the first `count` parameters from the frame.
pub open spec fn load_params_code(
    b: BuilderView,
    frame: Value,
    params: Seq<TyView>,
    count: nat,
) -> (BuilderView, Seq<Value>)
    decreases count,
{
    if count == 0 {
        (b, Seq::empty())
    } else {
        let (b, loaded) = load_params_code(b, frame, params, (count - 1) as nat);
        let (b, value) = b.get(frame, (FIRST_PARAM + count - 1) as u32, params[count - 1]);
        (b, loaded.push(value))
    }
}

/// Reads the parameters from the frame.
pub fn load_params(b: &mut Builder, frame: Value, params: &Vec<Ty>) -> (loaded: Vec<Value>)
    requires
        old(b)@.function.values.len() + params@.len() + FIRST_PARAM <= id_limit(),
        old(b)@.current.0 < old(b)@.function.blocks.len(),
        old(b)@.sound(),
        frame.0 < old(b)@.function.values.len(),
    ensures
        (final(b)@, loaded@) == load_params_code(old(b)@, frame, tys(params@), params@.len()),
        final(b)@.sound(),
        final(b)@.function.values.len() == old(b)@.function.values.len() + params@.len(),
        final(b)@.function.blocks.len() == old(b)@.function.blocks.len(),
        final(b)@.function.slots.len() == old(b)@.function.slots.len(),
        final(b)@.current == old(b)@.current,
        values_within(loaded@, final(b)@.function.values.len()),
{
    let ghost start = b@;
    let mut loaded: Vec<Value> = Vec::new();
    let mut i: usize = 0;
    assert(loaded@ =~= Seq::empty());
    while i < params.len()
        invariant
            i <= params.len(),
            start.function.values.len() + params@.len() + FIRST_PARAM <= id_limit(),
            start.current.0 < start.function.blocks.len(),
            frame.0 < start.function.values.len(),
            (b@, loaded@) == load_params_code(start, frame, tys(params@), i as nat),
            b@.sound(),
            b@.function.values.len() == start.function.values.len() + i,
            b@.function.blocks.len() == start.function.blocks.len(),
            b@.function.slots.len() == start.function.slots.len(),
            b@.current == start.current,
            values_within(loaded@, b@.function.values.len()),
        decreases params.len() - i,
    {
        let value = b.get(frame, FIRST_PARAM + i as u32, params[i].clone());
        loaded.push(value);
        i += 1;
    }
    loaded
}

/// Closes the body. Its entry goes where the state says. A request that comes
/// before the first instruction completes the task without running it. The
/// implicit scope joins its children before the task completes, cancelling them
/// where an exception leaves the body; one that already propagates takes
/// precedence over a request.
pub open spec fn close_poll_code(
    b: BuilderView,
    poll: Poll,
    cases: Seq<(u64, TargetView)>,
    runtime: Runtime,
    cancelled: Option<TypeId>,
    completion_ty: TyView,
    params: Seq<TyView>,
    body: BlockId,
) -> BuilderView {
    let b = b.switch_to(poll.entry);
    let b = b.terminate(TerminatorView::Switch { value: poll.state, cases, default: TargetView::to(poll.nowhere) });
    let b = b.switch_to(poll.begin);
    let (b, (request, due)) = due_request_code(b, poll.me);
    let (b, cancelled_start) = b.open_block();
    let (b, run) = b.open_block();
    let b = b.branch(due, cancelled_start, run);
    let b = b.switch_to(cancelled_start);
    let (b, failed) = deliver_code(b, poll.me, request, completion_ty);
    let b = b.jump_with(poll.finish, seq![failed]);
    let b = b.switch_to(run);
    let (b, loaded) = load_params_code(b, poll.frame, params, params.len());
    let b = b.jump_with(body, loaded);
    let b = b.switch_to(poll.finish);
    let b = b.set(poll.frame, RESULT, poll.ended);
    let (b, failed) = threw_code(b, poll.ended);
    let (b, cancel_children) = b.open_block();
    let (b, join) = b.open_block();
    let b = b.branch(failed, cancel_children, join);
    let b = b.switch_to(cancel_children);
    let (b, error) = cancellation_code(b, cancelled);
    let (b, boxed) = b.boxed(poll.me);
    let (b, _) = b.call(runtime.cancel_children, seq![boxed, error], TyView::Unit);
    let b = b.jump(join);
    let b = b.switch_to(join);
    let (b, boxed) = b.boxed(poll.me);
    let (b, next) = b.call(runtime.next_child, seq![boxed], optional_dynamic_view());
    let (b, has) = b.is_some(next);
    let (b, wait_child) = b.open_block();
    let (b, complete) = b.open_block();
    let b = b.branch(has, wait_child, complete);
    let b = b.switch_to(wait_child);
    let (b, child) = b.unwrap(next, TyView::Dynamic);
    let (b, boxed) = b.boxed(poll.me);
    let (b, _) = b.call(runtime.wait, seq![boxed, child], TyView::Unit);
    let (b, joining) = b.integer(JOIN);
    let b = b.set(poll.frame, STATE, joining);
    let (b, no) = b.boolean(false);
    let b = b.ret(no);
    let b = b.switch_to(poll.resume_join);
    let (b, none) = b.nil(optional_dynamic_view());
    let b = b.set(poll.me, WAITING, none);
    let (b, (request, due)) = due_request_code(b, poll.me);
    let (b, deliver_join) = b.open_block();
    let b = b.branch(due, deliver_join, join);
    let b = b.switch_to(deliver_join);
    let (b, held) = b.get(poll.frame, RESULT, completion_ty);
    let (b, failed) = threw_code(b, held);
    let (b, replace) = b.open_block();
    let b = b.branch(failed, cancel_children, replace);
    let b = b.switch_to(replace);
    let (b, failed) = deliver_code(b, poll.me, request, completion_ty);
    let b = b.set(poll.frame, RESULT, failed);
    let b = b.jump(cancel_children);
    let b = b.switch_to(complete);
    let (b, held) = b.get(poll.frame, RESULT, completion_ty);
    let (b, some) = b.some(held);
    let b = b.set(poll.me, COMPLETION, some);
    let (b, yes) = b.boolean(true);
    let b = b.ret(yes);
    b
}

/// Closes the body. Its entry goes where the state says. A request that comes
/// before the first instruction completes the task without running it. The
/// implicit scope joins its children before the task completes, cancelling them
/// where an exception leaves the body; one that already propagates takes
/// precedence over a request.
pub fn close_poll(
    b: &mut Builder,
    poll: Poll,
    cases: Vec<(u64, Target)>,
    runtime: Runtime,
    cancelled: Option<TypeId>,
    completion_ty: &Ty,
    params: &Vec<Ty>,
    body: BlockId,
)
    requires
        old(b)@.function.values.len() + params@.len() + 48 <= id_limit(),
        old(b)@.function.blocks.len() + 8 <= id_limit(),
        old(b)@.sound(),
        poll.within(old(b)@),
        body.0 < old(b)@.function.blocks.len(),
        forall|i: int|
            0 <= i < cases@.len() ==> (#[trigger] case_views(cases@)[i]).1.within(
                old(b)@.function.values.len(),
                old(b)@.function.blocks.len(),
            ),
    ensures
        final(b)@ == close_poll_code(
            old(b)@,
            poll,
            case_views(cases@),
            runtime,
            cancelled,
            completion_ty@,
            tys(params@),
            body,
        ),
        final(b)@.sound(),
        old(b)@.function.values.len() <= final(b)@.function.values.len() <= old(b)@.function.values.len() + params@.len() + 48,
        final(b)@.function.blocks.len() == old(b)@.function.blocks.len() + 8,
        final(b)@.function.slots.len() == old(b)@.function.slots.len(),
{
    proof {
        switch_is_within(poll.state, case_views(cases@), poll.nowhere, old(b)@.function.values.len(), old(b)@.function.blocks.len());
    }
    b.switch_to(poll.entry);
    b.terminate(Terminator::Switch { value: poll.state, cases, default: Target::to(poll.nowhere) });

    b.switch_to(poll.begin);
    let (request, due) = due_request(b, poll.me);
    let cancelled_start = b.block();
    let run = b.block();
    b.branch(due, cancelled_start, run);

    b.switch_to(cancelled_start);
    let failed = deliver(b, poll.me, request, completion_ty);
    b.jump_with(poll.finish, one(failed));

    b.switch_to(run);
    let loaded = load_params(b, poll.frame, params);
    b.jump_with(body, loaded);

    b.switch_to(poll.finish);
    b.set(poll.frame, RESULT, poll.ended);
    let failed = threw(b, poll.ended);
    let cancel_children = b.block();
    let join = b.block();
    b.branch(failed, cancel_children, join);

    b.switch_to(cancel_children);
    let error = cancellation(b, cancelled);
    let boxed = b.boxed(poll.me);
    let _ = b.call(runtime.cancel_children, two(boxed, error), Ty::Unit);
    b.jump(join);

    b.switch_to(join);
    let boxed = b.boxed(poll.me);
    let next = b.call(runtime.next_child, one(boxed), optional_dynamic());
    let has = b.is_some(next);
    let wait_child = b.block();
    let complete = b.block();
    b.branch(has, wait_child, complete);

    b.switch_to(wait_child);
    let child = b.unwrap(next, Ty::Dynamic);
    let boxed = b.boxed(poll.me);
    let _ = b.call(runtime.wait, two(boxed, child), Ty::Unit);
    let joining = b.integer(JOIN);
    b.set(poll.frame, STATE, joining);
    let no = b.boolean(false);
    b.ret(no);

    b.switch_to(poll.resume_join);
    let none = b.nil(optional_dynamic());
    b.set(poll.me, WAITING, none);
    let (request, due) = due_request(b, poll.me);
    let deliver_join = b.block();
    b.branch(due, deliver_join, join);

    b.switch_to(deliver_join);
    let held = b.get(poll.frame, RESULT, completion_ty.clone());
    let failed = threw(b, held);
    let replace = b.block();
    b.branch(failed, cancel_children, replace);

    b.switch_to(replace);
    let failed = deliver(b, poll.me, request, completion_ty);
    b.set(poll.frame, RESULT, failed);
    b.jump(cancel_children);

    b.switch_to(complete);
    let held = b.get(poll.frame, RESULT, completion_ty.clone());
    let some = b.some(held);
    b.set(poll.me, COMPLETION, some);
    let yes = b.boolean(true);
    b.ret(yes);
}

proof fn switch_is_within(
    value: Value,
    cases: Seq<(u64, TargetView)>,
    nowhere: BlockId,
    values: nat,
    blocks: nat,
)
    requires
        value.0 < values,
        nowhere.0 < blocks,
        forall|i: int| 0 <= i < cases.len() ==> (#[trigger] cases[i]).1.within(values, blocks),
    ensures
        (TerminatorView::Switch { value, cases, default: TargetView::to(nowhere) }).within(
            values,
            blocks,
        ),
{
    let term = TerminatorView::Switch { value, cases, default: TargetView::to(nowhere) };
    assert forall|i: int| 0 <= i < term.targets().len() implies (
    #[trigger] term.targets()[i]).within(values, blocks) by {
        if i < cases.len() {
            assert(cases[i].1.within(values, blocks));
        }
    }
}

/// A literal for a frame field nothing has written yet.
pub open spec fn placeholder(ty: TyView) -> ConstView {
    match ty {
        TyView::Unit => ConstView::Unit,
        TyView::Bool => ConstView::Bool(false),
        TyView::Int(_) => ConstView::Int(0),
        TyView::Pointer { .. } => ConstView::Int(0),
        TyView::Float(_) => ConstView::Float { bits: 0, text: "0.0"@ },
        TyView::Char => ConstView::Char('\0'),
        _ => ConstView::Nil,
    }
}

/// A value of `ty` for a frame field nothing has written yet.
pub fn placeholder_of(b: &mut Builder, ty: &Ty) -> (value: Value)
    requires
        old(b)@.ready(),
    ensures
        (final(b)@, value) == old(b)@.put(InstKindView::Const(placeholder(ty@)), ty@),
        final(b)@.function.values.len() == old(b)@.function.values.len() + 1,
        final(b)@.function.blocks.len() == old(b)@.function.blocks.len(),
        final(b)@.function.slots.len() == old(b)@.function.slots.len(),
        final(b)@.current == old(b)@.current,
        old(b)@.sound() ==> final(b)@.sound(),
        value.0 == old(b)@.function.values.len(),
{
    let literal = match ty {
        Ty::Unit => Const::Unit,
        Ty::Bool => Const::Bool(false),
        Ty::Int(_) => Const::Int(0),
        Ty::Pointer { .. } => Const::Int(0),
        Ty::Float(_) => Const::Float(FloatLiteral { bits: 0, text: "0.0".to_owned() }),
        Ty::Char => Const::Char('\0'),
        _ => Const::Nil,
    };
    b.emit(InstKind::Const(literal), ty.clone())
}

/// Values for the first `count` of some frame fields nothing has written yet.
pub open spec fn placeholders_code(
    b: BuilderView,
    fields: Seq<FieldView>,
    count: nat,
) -> (BuilderView, Seq<Value>)
    decreases count,
{
    if count == 0 {
        (b, Seq::empty())
    } else {
        let (b, held) = placeholders_code(b, fields, (count - 1) as nat);
        let ty = fields[count - 1].ty;
        let (b, value) = b.put(InstKindView::Const(placeholder(ty)), ty);
        (b, held.push(value))
    }
}

fn placeholders(b: &mut Builder, fields: &Vec<Field>) -> (held: Vec<Value>)
    requires
        old(b)@.function.values.len() + fields@.len() <= id_limit(),
        old(b)@.current.0 < old(b)@.function.blocks.len(),
        old(b)@.sound(),
    ensures
        (final(b)@, held@) == placeholders_code(old(b)@, views(fields@), fields@.len()),
        final(b)@.sound(),
        final(b)@.function.values.len() == old(b)@.function.values.len() + fields@.len(),
        final(b)@.function.blocks.len() == old(b)@.function.blocks.len(),
        final(b)@.function.slots.len() == old(b)@.function.slots.len(),
        final(b)@.current == old(b)@.current,
        values_within(held@, final(b)@.function.values.len()),
{
    let ghost start = b@;
    let mut held: Vec<Value> = Vec::new();
    let mut i: usize = 0;
    assert(held@ =~= Seq::empty());
    while i < fields.len()
        invariant
            i <= fields.len(),
            start.function.values.len() + fields@.len() <= id_limit(),
            start.current.0 < start.function.blocks.len(),
            (b@, held@) == placeholders_code(start, views(fields@), i as nat),
            b@.sound(),
            b@.function.values.len() == start.function.values.len() + i,
            b@.function.blocks.len() == start.function.blocks.len(),
            b@.function.slots.len() == start.function.slots.len(),
            b@.current == start.current,
            values_within(held@, b@.function.values.len()),
        decreases fields.len() - i,
    {
        assert(views(fields@)[i as int] == fields@[i as int]@);
        let value = placeholder_of(b, &fields[i].ty);
        held.push(value);
        i += 1;
    }
    held
}

/// Builds the frame over the arguments, and the task whose closure runs the body
/// over the frame.
pub open spec fn task_made_code(
    b: BuilderView,
    args: Seq<Value>,
    rest: Seq<FieldView>,
    frame_ty: TyView,
    task_ty: TyView,
    completion_ty: TyView,
    poll: FuncId,
) -> BuilderView {
    let (b, zero) = b.integer(0);
    let (b, no_task) = b.nil(task_ty);
    let (b, no_result) = b.nil(completion_ty);
    let (b, held) = placeholders_code(b, rest, rest.len());
    let initial = seq![zero, no_task, no_result] + args + held;
    let (b, frame) = b.put(InstKindView::MakeStruct { ty: frame_ty, fields: initial, allocation: Allocation::Managed }, frame_ty);
    let (b, advance) = b.put(InstKindView::MakeClosure { func: poll, captures: seq![frame] }, poll_closure_view());
    let (b, completion) = b.nil(optional_of_view(completion_ty));
    let (b, started) = b.boolean(false);
    let (b, request) = b.nil(optional_dynamic_view());
    let (b, delivered) = b.boolean(false);
    let (b, queued) = b.boolean(false);
    let (b, waiting) = b.nil(optional_dynamic_view());
    let (b, waiters) = empty_list_code(b);
    let (b, children) = empty_list_code(b);
    let (b, scheduler) = b.nil(TyView::Dynamic);
    let (b, owner) = b.nil(optional_dynamic_view());
    let (b, failures) = empty_list_code(b);
    let (b, observed) = b.boolean(false);
    let fields = seq![advance, completion, started, request, delivered, queued, waiting, waiters, children, scheduler, owner, failures, observed];
    let (b, task) = b.put(InstKindView::MakeStruct { ty: task_ty, fields, allocation: Allocation::Managed }, task_ty);
    let b = b.set(frame, TASK, task);
    let b = b.ret(task);
    b
}

fn make_task(
    b: &mut Builder,
    args: &Vec<Value>,
    rest: &Vec<Field>,
    frame_ty: &Ty,
    task_ty: &Ty,
    completion_ty: &Ty,
    poll: FuncId,
)
    requires
        old(b)@.function.values.len() + rest@.len() + 20 <= id_limit(),
        old(b)@.function.blocks.len() <= id_limit(),
        old(b)@.current.0 < old(b)@.function.blocks.len(),
        old(b)@.sound(),
        values_within(args@, old(b)@.function.values.len()),
    ensures
        final(b)@ == task_made_code(
            old(b)@,
            args@,
            views(rest@),
            frame_ty@,
            task_ty@,
            completion_ty@,
            poll,
        ),
        final(b)@.sound(),
        final(b)@.function.blocks.len() == old(b)@.function.blocks.len(),
        final(b)@.ended(old(b)@.current),
{
    let zero = b.integer(0);
    let no_task = b.nil(task_ty.clone());
    let no_result = b.nil(completion_ty.clone());
    let held = placeholders(b, rest);
    let mut initial: Vec<Value> = Vec::new();
    initial.push(zero);
    initial.push(no_task);
    initial.push(no_result);
    push_values(&mut initial, args);
    push_values(&mut initial, &held);
    assert(initial@ =~= seq![zero, no_task, no_result] + args@ + held@);
    let frame = b.emit(InstKind::MakeStruct { ty: frame_ty.clone(), fields: initial, allocation: Allocation::Managed }, frame_ty.clone());
    let advance = b.emit(InstKind::MakeClosure { func: poll, captures: one(frame) }, poll_closure());
    let completion = b.nil(optional_of(completion_ty.clone()));
    let started = b.boolean(false);
    let request = b.nil(optional_dynamic());
    let delivered = b.boolean(false);
    let queued = b.boolean(false);
    let waiting = b.nil(optional_dynamic());
    let waiters = empty_list(b);
    let children = empty_list(b);
    let scheduler = b.nil(Ty::Dynamic);
    let owner = b.nil(optional_dynamic());
    let failures = empty_list(b);
    let observed = b.boolean(false);
    let mut fields: Vec<Value> = Vec::new();
    fields.push(advance);
    fields.push(completion);
    fields.push(started);
    fields.push(request);
    fields.push(delivered);
    fields.push(queued);
    fields.push(waiting);
    fields.push(waiters);
    fields.push(children);
    fields.push(scheduler);
    fields.push(owner);
    fields.push(failures);
    fields.push(observed);
    assert(fields@ =~= seq![advance, completion, started, request, delivered, queued, waiting, waiters, children, scheduler, owner, failures, observed]);
    let task = b.emit(InstKind::MakeStruct { ty: task_ty.clone(), fields, allocation: Allocation::Managed }, task_ty.clone());
    b.set(frame, TASK, task);
    b.ret(task);
}

/// The completion type and the task type of an asynchronous function that has
/// one.
pub open spec fn task_of(result: TyView) -> TyView {
    TyView::Builtin { kind: Builtin::Task, args: seq![result->Builtin_args[0]] }
}

/// The body of `function`, with its points taken out, before anything is kept in
/// the frame, and what it is resumed at and waits for.
#[verifier::opaque]
pub open spec fn body_of(
    function: FunctionView,
    runtime: Runtime,
    cancelled: Option<TypeId>,
    frame_ty: TyView,
) -> (Poll, FunctionView, Seq<BlockId>, Seq<Value>) {
    let completion_ty = function.result;
    let task_ty = task_of(function.result);
    let b = BuilderView { function, current: function.entry, span: function.span };
    let (b, poll) = open_poll_code(b, completion_ty, frame_ty, task_ty);
    let e = Expansion {
        b,
        cases: seq![
            (0u64, TargetView::to(poll.begin)),
            (JOIN, TargetView::to(poll.resume_join)),
        ],
        resumes: seq![poll.resume_join],
        awaited: Seq::empty(),
    };
    let context = Context { runtime, frame: poll.frame, me: poll.me };
    let e = blocks_expanded(
        e,
        context,
        function.values,
        function.blocks,
        poll.finish,
        function.blocks.len(),
    );
    let b = close_poll_code(
        e.b,
        poll,
        e.cases,
        runtime,
        cancelled,
        completion_ty,
        function.params,
        function.entry,
    );
    (poll, b.function, e.resumes, e.awaited)
}

/// Which values of a body have to survive a suspension.
pub open spec fn kept_of(
    poll: Poll,
    body: FunctionView,
    resumes: Seq<BlockId>,
    awaited: Seq<Value>,
) -> Seq<bool> {
    survivors(body, resumes, awaited, seq![poll.closure, poll.frame, poll.me, poll.state])
}

/// The function that advances the task of `function`, and the fields its frame
/// has after the parameters.
#[verifier::opaque]
pub open spec fn poll_of(
    function: FunctionView,
    runtime: Runtime,
    cancelled: Option<TypeId>,
    frame_ty: TyView,
) -> (FunctionView, Seq<FieldView>) {
    let (poll, body, resumes, awaited) = body_of(function, runtime, cancelled, frame_ty);
    let kept = kept_of(poll, body, resumes, awaited);
    let params = function.block(function.entry).params;
    let (rest, homes) = laid_out(body.values, params, kept, kept.len());
    let whole = spilled(body, poll.frame, homes, function.span, body.blocks.len());
    (
        FunctionView {
            name: function.name + "#poll"@,
            params: seq![poll_closure_view()],
            result: TyView::Bool,
            asynchronous: false,
            entry: poll.entry,
            ..whole
        },
        rest,
    )
}

/// The function that stands for `function` where it is called: it builds the
/// task that `poll` advances.
#[verifier::opaque]
pub open spec fn stub_of(
    function: FunctionView,
    frame_ty: TyView,
    rest: Seq<FieldView>,
    poll: FuncId,
) -> FunctionView {
    let task_ty = task_of(function.result);
    let fresh = FunctionView {
        asynchronous: true,
        inline: function.inline,
        ..FunctionView::fresh(function.name, function.params, task_ty, function.span)
    };
    let b = BuilderView { function: fresh, current: fresh.entry, span: function.span };
    task_made_code(
        b,
        fresh.block(fresh.entry).params,
        rest,
        frame_ty,
        task_ty,
        function.result,
        poll,
    ).function
}

/// Whether the last but one instruction of the entry block builds a task of
/// `task_ty` whose fields have the types given.
pub open spec fn builds_task(
    function: FunctionView,
    task_ty: TyView,
    types: Seq<TyView>,
) -> bool {
    let insts = function.block(function.entry).insts;
    &&& insts.len() >= 2
    &&& insts[insts.len() - 2].kind matches InstKindView::MakeStruct { ty, fields, .. } && ty
        == task_ty && fields.len() == types.len() && forall|i: int|
        0 <= i < fields.len() ==> function.type_of(#[trigger] fields[i]) == types[i]
}

proof fn put_adds(b: BuilderView, kind: InstKindView, ty: TyView)
    requires
        b.current.0 < b.function.blocks.len(),
        b.function.values.len() < id_limit(),
    ensures
        b.put(kind, ty).0.function.values == b.function.values.push(ty),
        b.put(kind, ty).0.current == b.current,
        b.put(kind, ty).0.function.entry == b.function.entry,
        b.put(kind, ty).0.function.blocks.len() == b.function.blocks.len(),
        b.put(kind, ty).0.function.block(b.current).insts.last().kind == kind,
        b.put(kind, ty).0.function.block(b.current).insts.len() == b.function.block(
            b.current,
        ).insts.len() + 1,
        b.put(kind, ty).1.0 == b.function.values.len(),
{
    reveal(BuilderView::put);
}

proof fn placeholders_add(b: BuilderView, fields: Seq<FieldView>, count: nat)
    requires
        b.current.0 < b.function.blocks.len(),
        count <= fields.len(),
        b.function.values.len() + count <= id_limit(),
    ensures
        ({
            let after = placeholders_code(b, fields, count).0;
            &&& after.function.values.len() == b.function.values.len() + count
            &&& after.current == b.current
            &&& after.function.entry == b.function.entry
            &&& after.function.blocks.len() == b.function.blocks.len()
        }),
    decreases count,
{
    if count > 0 {
        placeholders_add(b, fields, (count - 1) as nat);
        let earlier = placeholders_code(b, fields, (count - 1) as nat).0;
        let ty = fields[count - 1].ty;
        put_adds(earlier, InstKindView::Const(placeholder(ty)), ty);
    }
}

#[verifier::rlimit(60)]
proof fn a_made_task_is_whole(
    b: BuilderView,
    args: Seq<Value>,
    rest: Seq<FieldView>,
    frame_ty: TyView,
    task_ty: TyView,
    result: TyView,
    poll: FuncId,
)
    requires
        b.current == b.function.entry,
        b.current.0 < b.function.blocks.len(),
        b.function.values.len() + rest.len() + 20 <= id_limit(),
    ensures
        builds_task(
            task_made_code(b, args, rest, frame_ty, task_ty, result_of_view(result), poll).function,
            task_ty,
            task_fields_view(result),
        ),
{
    let completion_ty = result_of_view(result);
    let b0 = b;
    put_adds(b0, InstKindView::Const(ConstView::Int(0)), TyView::integer());
    let (b1, zero) = b0.integer(0);
    put_adds(b1, InstKindView::Const(ConstView::Nil), task_ty);
    let (b2, no_task) = b1.nil(task_ty);
    put_adds(b2, InstKindView::Const(ConstView::Nil), completion_ty);
    let (b3, no_result) = b2.nil(completion_ty);
    placeholders_add(b3, rest, rest.len());
    let (b4, held) = placeholders_code(b3, rest, rest.len());
    let initial = seq![zero, no_task, no_result] + args + held;
    let made = InstKindView::MakeStruct {
        ty: frame_ty,
        fields: initial,
        allocation: Allocation::Managed,
    };
    put_adds(b4, made, frame_ty);
    let (b5, frame) = b4.put(made, frame_ty);
    let closed = InstKindView::MakeClosure { func: poll, captures: seq![frame] };
    put_adds(b5, closed, poll_closure_view());
    let (b6, advance) = b5.put(closed, poll_closure_view());
    let nil = InstKindView::Const(ConstView::Nil);
    let no = InstKindView::Const(ConstView::Bool(false));
    let empty = InstKindView::MakeList { element: TyView::Dynamic, values: Seq::empty() };
    put_adds(b6, nil, optional_of_view(completion_ty));
    let (b7, completion) = b6.nil(optional_of_view(completion_ty));
    put_adds(b7, no, TyView::Bool);
    let (b8, started) = b7.boolean(false);
    put_adds(b8, nil, optional_dynamic_view());
    let (b9, request) = b8.nil(optional_dynamic_view());
    put_adds(b9, no, TyView::Bool);
    let (b10, delivered) = b9.boolean(false);
    put_adds(b10, no, TyView::Bool);
    let (b11, queued) = b10.boolean(false);
    put_adds(b11, nil, optional_dynamic_view());
    let (b12, waiting) = b11.nil(optional_dynamic_view());
    put_adds(b12, empty, list_of_dynamic_view());
    let (b13, waiters) = empty_list_code(b12);
    put_adds(b13, empty, list_of_dynamic_view());
    let (b14, children) = empty_list_code(b13);
    put_adds(b14, nil, TyView::Dynamic);
    let (b15, scheduler) = b14.nil(TyView::Dynamic);
    put_adds(b15, nil, optional_dynamic_view());
    let (b16, owner) = b15.nil(optional_dynamic_view());
    put_adds(b16, empty, list_of_dynamic_view());
    let (b17, failures) = empty_list_code(b16);
    put_adds(b17, no, TyView::Bool);
    let (b18, observed) = b17.boolean(false);
    let fields = seq![
        advance,
        completion,
        started,
        request,
        delivered,
        queued,
        waiting,
        waiters,
        children,
        scheduler,
        owner,
        failures,
        observed,
    ];
    let task = InstKindView::MakeStruct { ty: task_ty, fields, allocation: Allocation::Managed };
    put_adds(b18, task, task_ty);
    let b19 = b18.put(task, task_ty).0;
    let after = task_made_code(b, args, rest, frame_ty, task_ty, completion_ty, poll);
    let first = b5.function.values.len();
    let types = task_fields_view(result);
    assert(types.len() == fields.len());
    assert(after.function.values == b19.function.values && after.function.entry
        == b19.function.entry && after.function.block(after.function.entry).insts.len()
        == b19.function.block(b19.function.entry).insts.len() + 1
        && after.function.block(after.function.entry).insts.drop_last() =~= b19.function.block(
        b19.function.entry,
    ).insts) by {
        reveal(BuilderView::emit_void);
        reveal(BuilderView::terminate);
    }
    let insts = after.function.block(after.function.entry).insts;
    assert(insts[insts.len() - 2] == insts.drop_last().last());
    assert forall|i: int| 0 <= i < fields.len() implies after.function.type_of(
        #[trigger] fields[i],
    ) == types[i] by {
        assert(fields[i].0 == first + i);
    }
}

/// The function that stands for an asynchronous one builds a task that holds, field
/// by field, what a handle on it says it holds.
pub proof fn a_task_holds_what_its_type_says(
    program: ProgramView,
    runtime: Runtime,
    id: FuncId,
    cancelled: Option<TypeId>,
    result: TyView,
)
    requires
        id.0 < program.functions.len(),
        can_transform(program, runtime, id, cancelled),
        hindrance(program.function(id)) is None,
        program.function(id).result == result_of_view(result),
    ensures
        builds_task(
            transformed(program, runtime, id, cancelled).function(id),
            TyView::Builtin { kind: Builtin::Task, args: seq![result] },
            task_fields_view(result),
        ),
{
    reveal(stub_of);
    reveal(result_of_view);
    let function = program.function(id);
    let frame_ty = named_view(program.next_type());
    let (poll, rest) = poll_of(function, runtime, cancelled, frame_ty);
    let task_ty = task_of(function.result);
    let fresh = FunctionView {
        asynchronous: true,
        inline: function.inline,
        ..FunctionView::fresh(function.name, function.params, task_ty, function.span)
    };
    let b = BuilderView { function: fresh, current: fresh.entry, span: function.span };
    a_made_task_is_whole(
        b,
        fresh.block(fresh.entry).params,
        rest,
        frame_ty,
        task_ty,
        result,
        program.next_function(),
    );
    assert(transformed(program, runtime, id, cancelled).function(id) == stub_of(
        function,
        frame_ty,
        rest,
        program.next_function(),
    ));
}

/// The frame of an asynchronous function.
pub open spec fn frame_of(function: FunctionView, rest: Seq<FieldView>) -> NominalView {
    NominalView {
        name: function.name + "#frame"@,
        type_params: Seq::empty(),
        shape: ShapeView::Struct(
            StructView {
                fields: frame_fields(
                    task_of(function.result),
                    function.result,
                    function.params,
                    rest,
                ),
                reference: true,
                repr_c: false,
            },
        ),
        span: function.span,
    }
}

/// What stops an asynchronous function from becoming a task, if anything does.
pub open spec fn hindrance(function: FunctionView) -> Option<GapView> {
    if function.slots.len() > 0 {
        Some(
            GapView {
                span: function.span,
                what: "an async function taking a local's address"@,
            },
        )
    } else if !(function.result is Builtin) || function.result->Builtin_kind != Builtin::Result {
        Some(
            GapView {
                span: function.span,
                what: "an async function without a completion"@,
            },
        )
    } else {
        None
    }
}

/// The program with the function called `id` turned into the call that builds
/// its task, and with the body and the frame of that task; the program as it was
/// where that cannot be done.
pub open spec fn transformed(
    program: ProgramView,
    runtime: Runtime,
    id: FuncId,
    cancelled: Option<TypeId>,
) -> ProgramView {
    let function = program.function(id);
    if hindrance(function) is Some {
        program
    } else {
        let frame_ty = named_view(program.next_type());
        let (poll, rest) = poll_of(function, runtime, cancelled, frame_ty);
        program.add_type(frame_of(function, rest)).add_function(poll).with_function(
            id,
            stub_of(function, frame_ty, rest, program.next_function()),
        )
    }
}

/// Whether the function called `id` can become a task: its awaits are awaits of
/// tasks, its completion says what it completes with, its entry takes its
/// parameters, and what is written can be told apart.
pub open spec fn can_transform(
    program: ProgramView,
    runtime: Runtime,
    id: FuncId,
    cancelled: Option<TypeId>,
) -> bool {
    let function = program.function(id);
    let frame_ty = named_view(program.next_type());
    let points = block_points(function.blocks, function.blocks.len());
    let (poll, rest) = poll_of(function, runtime, cancelled, frame_ty);
    &&& function.well_formed()
    &&& hindrance(function) is None ==> {
        &&& function.result->Builtin_args.len() > 0
        &&& points_fit(function.blocks, function.values)
        &&& function.block(function.entry).params.len() == function.params.len()
        &&& function.values.len() + 21 * points + function.params.len() + 53 <= id_limit()
        &&& function.blocks.len() + 8 * points + 13 <= id_limit()
        &&& poll.values.len() <= id_limit()
        &&& function.params.len() + rest.len() + 20 <= id_limit()
        &&& program.types.len() < id_limit()
        &&& program.functions.len() < id_limit()
    }
}

fn with_suffix(name: &String, suffix: &str) -> (whole: String)
    ensures
        whole@ == name@ + suffix@,
{
    let mut whole = name.clone();
    whole.append(suffix);
    whole
}

fn task_type(result: &Ty) -> (ty: Ty)
    requires
        result@ is Builtin,
        result@->Builtin_args.len() > 0,
    ensures
        ty@ == task_of(result@),
{
    match result {
        Ty::Builtin { kind, args } => {
            assert(result@ == TyView::Builtin { kind: *kind, args: tys(args@) });
            assert(tys(args@)[0] == args@[0]@);
            Ty::Builtin { kind: Builtin::Task, args: one_ty(args[0].clone()) }
        },
        _ => result.clone(),
    }
}

/// Writes the body of `function` with its points taken out.
#[verifier::rlimit(40)]
fn write_body(
    function: &Function,
    runtime: Runtime,
    cancelled: Option<TypeId>,
    frame_ty: &Ty,
    task_ty: &Ty,
) -> (result: (Poll, Function, Vec<BlockId>, Vec<Value>))
    requires
        function@.well_formed(),
        task_ty@ == task_of(function@.result),
        points_fit(function@.blocks, function@.values),
        function@.values.len() + 21 * block_points(function@.blocks, function@.blocks.len())
            + function@.params.len() + 53 <= id_limit(),
        function@.blocks.len() + 8 * block_points(function@.blocks, function@.blocks.len()) + 13
            <= id_limit(),
    ensures
        (result.0, result.1@, result.2@, result.3@) == body_of(
            function@,
            runtime,
            cancelled,
            frame_ty@,
        ),
        result.1@.well_formed(),
        forall|k: int|
            0 <= k < result.2@.len() ==> (#[trigger] result.2@[k]).0 < result.1@.blocks.len(),
        result.0.within(BuilderView { function: result.1@, current: result.0.entry, span: function.span }),
{
    proof {
        reveal(body_of);
    }
    let mut b = Builder::new(function.clone(), function.entry, function.span);
    let poll = open_poll(&mut b, &function.result, frame_ty, task_ty);
    let mut cases: Vec<(u64, Target)> = Vec::new();
    cases.push((0, Target::to(poll.begin)));
    cases.push((JOIN, Target::to(poll.resume_join)));
    let mut resumes: Vec<BlockId> = Vec::new();
    resumes.push(poll.resume_join);
    let awaited: Vec<Value> = Vec::new();
    assert(case_views(cases@) =~= seq![
        (0u64, TargetView::to(poll.begin)),
        (JOIN, TargetView::to(poll.resume_join)),
    ]);
    assert(resumes@ =~= seq![poll.resume_join]);
    assert(awaited@ =~= Seq::empty());
    let e = Expanding { b, cases, resumes, awaited };
    let context = Context { runtime, frame: poll.frame, me: poll.me };
    assert(views(function.blocks@) == function@.blocks);
    assert forall|i: int| 0 <= i < function.blocks@.len() implies (
    #[trigger] function.blocks@[i])@.within(
        function.values@.len(),
        e@.b.function.slots.len(),
        function.blocks@.len(),
    ) by {
        assert(function@.blocks[i].within(
            function@.values.len(),
            function@.slots.len(),
            function@.blocks.len(),
        ));
    }
    let e = expand_blocks(e, context, &function.values, &function.blocks, poll.finish);
    let ghost expanded = e@;
    let Expanding { mut b, cases, resumes, awaited } = e;
    assert(expanded.cases == case_views(cases@));
    assert(expanded.resumes == resumes@);
    close_poll(
        &mut b,
        poll,
        cases,
        runtime,
        cancelled,
        &function.result,
        &function.params,
        function.entry,
    );
    (poll, b.finish(), resumes, awaited)
}

/// Keeps in the frame what has to survive, and gives the body its name.
fn write_poll(
    function: &Function,
    runtime: Runtime,
    cancelled: Option<TypeId>,
    frame_ty: &Ty,
    task_ty: &Ty,
) -> (result: (Function, Vec<Field>))
    requires
        function@.well_formed(),
        task_ty@ == task_of(function@.result),
        points_fit(function@.blocks, function@.values),
        function@.values.len() + 21 * block_points(function@.blocks, function@.blocks.len())
            + function@.params.len() + 53 <= id_limit(),
        function@.blocks.len() + 8 * block_points(function@.blocks, function@.blocks.len()) + 13
            <= id_limit(),
        function@.block(function@.entry).params.len() == function@.params.len(),
        poll_of(function@, runtime, cancelled, frame_ty@).0.values.len() <= id_limit(),
        function@.params.len() + poll_of(function@, runtime, cancelled, frame_ty@).1.len() + 20
            <= id_limit(),
    ensures
        (result.0@, views(result.1@)) == poll_of(function@, runtime, cancelled, frame_ty@),
{
    proof {
        reveal(poll_of);
    }
    let (poll, mut body, resumes, awaited) = write_body(
        function,
        runtime,
        cancelled,
        frame_ty,
        task_ty,
    );
    let mut fixed: Vec<Value> = Vec::new();
    fixed.push(poll.closure);
    fixed.push(poll.frame);
    fixed.push(poll.me);
    fixed.push(poll.state);
    assert(fixed@ =~= seq![poll.closure, poll.frame, poll.me, poll.state]);
    let kept = find_survivors(&body, &resumes, &awaited, &fixed);
    let params = &function.block(function.entry).params;
    let (rest, homes) = lay_out(&body, params, &kept);
    spill(&mut body, poll.frame, &homes, function.span);
    body.name = with_suffix(&function.name, "#poll");
    body.params = one_ty(poll_closure());
    body.result = Ty::Bool;
    body.asynchronous = false;
    body.entry = poll.entry;
    (body, rest)
}

/// Writes the function that builds the task.
fn write_stub(
    function: &Function,
    frame_ty: &Ty,
    task_ty: &Ty,
    rest: &Vec<Field>,
    poll: FuncId,
) -> (stub: Function)
    requires
        task_ty@ == task_of(function@.result),
        function@.params.len() + rest@.len() + 20 <= id_limit(),
    ensures
        stub@ == stub_of(function@, frame_ty@, views(rest@), poll),
{
    proof {
        reveal(stub_of);
    }
    let mut stub = Function::new(
        function.name.clone(),
        clone_tys(&function.params),
        task_ty.clone(),
        function.span,
    );
    stub.asynchronous = true;
    stub.inline = function.inline;
    let entry = stub.entry;
    let args = clone_values(&stub.block(entry).params);
    proof {
        fresh_is_well_formed(function@.name, function@.params, task_ty@, function@.span);
    }
    let mut b = Builder::new(stub, entry, function.span);
    make_task(&mut b, &args, rest, frame_ty, task_ty, &function.result, poll);
    b.finish()
}

/// Turns the function called `id` into the call that builds its task, and adds
/// the body and the frame of that task. What stands in the way is given back,
/// and then nothing changes.
pub fn transform(
    program: &mut Program,
    runtime: &Runtime,
    id: FuncId,
    cancelled: Option<TypeId>,
) -> (gap: Option<Gap>)
    requires
        id.0 < old(program)@.functions.len(),
        can_transform(old(program)@, *runtime, id, cancelled),
    ensures
        final(program)@ == transformed(old(program)@, *runtime, id, cancelled),
        match gap {
            Some(held) => hindrance(old(program)@.function(id)) == Some(held@),
            None => hindrance(old(program)@.function(id)) is None,
        },
{
    let ghost start = program@;
    let function = program.function(id).clone();
    if function.slots.len() > 0 {
        return Some(
            Gap {
                span: function.span,
                what: "an async function taking a local's address".to_owned(),
            },
        );
    }
    let completes = match &function.result {
        Ty::Builtin { kind, .. } => *kind == Builtin::Result,
        _ => false,
    };
    if !completes {
        return Some(
            Gap {
                span: function.span,
                what: "an async function without a completion".to_owned(),
            },
        );
    }
    let task_ty = task_type(&function.result);
    let frame_ty = named(TypeId(program.types.len() as u32));
    let (poll, rest) = write_poll(&function, *runtime, cancelled, &frame_ty, &task_ty);
    let poll_id = FuncId(program.functions.len() as u32);
    let stub = write_stub(&function, &frame_ty, &task_ty, &rest, poll_id);
    let mut fields = first_fields(&task_ty, &function.result, &function.params);
    append_fields(&mut fields, rest);
    assert(views(fields@) =~= frame_fields(
        task_ty@,
        function@.result,
        function@.params,
        views(rest@),
    ));
    let type_params: Vec<String> = Vec::new();
    assert(crate::text::names(type_params@) =~= Seq::empty());
    let _ = program.add_type(
        Nominal {
            name: with_suffix(&function.name, "#frame"),
            type_params,
            shape: Shape::Struct(Struct { fields, reference: true, repr_c: false }),
            span: function.span,
        },
    );
    let _ = program.add_function(poll);
    *program.function_mut(id) = stub;
    assert(program@ =~= transformed(start, *runtime, id, cancelled));
    None
}

fn append_fields(fields: &mut Vec<Field>, rest: Vec<Field>)
    ensures
        views(final(fields)@) == views(old(fields)@) + views(rest@),
{
    let ghost had = fields@;
    let mut rest = rest;
    let ghost more = rest@;
    fields.append(&mut rest);
    assert(views(fields@) =~= views(had) + views(more));
}

} // verus!
