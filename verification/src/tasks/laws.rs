//! What the code of tasks promises.

use vstd::prelude::*;

use crate::inst::{
    Allocation, BinaryOp, ConstView, InstKindView, InstView, ScopeKind, TargetView, TerminatorView,
    Trap, UnaryOp, Value,
};
use crate::laws::{given_operands_are_read, only_operands_are_given};
use crate::program::{id_limit, BlockId, BlockView, FuncId, FunctionView};
use crate::protocols::{order_code, spell_truth_code};
use crate::span::Span;
use crate::ty::{TyView, TypeId};

use super::{
    named_view, scope_type_view, ACTIVE_SCOPE, COMPLETION, DELIVERED, OBSERVED, OWNER, POLL,
    QUEUED, REQUEST, ROOT_SCOPE, SCHEDULER, SCOPE_CHILDREN, SCOPE_FAILURES, SCOPE_PARENT,
    SCOPE_REQUEST, SCOPE_SHIELDED, STARTED, WAITERS, WAITING,
};
use super::builder::BuilderView;
use super::cancels::requests_called;
use super::entry::driven_code;
use super::machine::{
    cancellation_code, deliver_code, due_request_code, expand_await_code, expand_point_code,
    threw_code, FIRST_PARAM, JOIN, RESULT, STATE, TASK,
};
use super::runtime::{
    cancel_children_code, cancel_code, cancel_scope_code, child_error_code, drive_code,
    enqueue_code, erased_completion_view, next_child_code, reserved_view, start_code, wait_code,
    wake_code, HEAD, QUEUE, Runtime,
};
use super::scopes::{close_code, join_code, open_code, spawn_code};
use super::spill::{
    case_args, kept, kept_params, loaded, passing, spilled_inst, spilled_term, term_operands,
};
use super::split::{
    awaited_completion, block_expanded, completing, is_point, point_from, point_taken, Context,
    Expansion,
};
use super::transform::{close_poll_code, load_params_code, open_poll_code, Poll};

verus! {

/// The block called `id`, as it is written so far.
#[verifier::opaque]
pub open spec fn seen(b: BuilderView, id: BlockId) -> BlockView {
    b.function.block(id)
}

/// How many values there are, and how many blocks.
#[verifier::opaque]
pub open spec fn size(b: BuilderView) -> (nat, nat) {
    (b.function.values.len(), b.function.blocks.len())
}

/// The block written into.
#[verifier::opaque]
pub open spec fn place(b: BuilderView) -> BlockId {
    b.current
}

/// What the instruction at `i` of a block produces.
pub open spec fn given(block: BlockView, i: int) -> Value {
    block.insts[i].result->Some_0
}

/// Whether the instruction at `i` of a block does this, and produces a value.
pub open spec fn makes(block: BlockView, i: int, kind: InstKindView) -> bool {
    block.insts[i].kind == kind && block.insts[i].result is Some
}

/// Whether the instruction at `i` of a block does this, and produces no value.
pub open spec fn only_does(block: BlockView, i: int, kind: InstKindView) -> bool {
    block.insts[i].kind == kind && block.insts[i].result is None
}

/// Whether a block ends so.
pub open spec fn ends(block: BlockView, term: TerminatorView) -> bool {
    block.term == Some(term)
}

pub(crate) broadcast proof fn put_is_seen(b: BuilderView, kind: InstKindView, ty: TyView)
    requires
        place(b).0 < size(b).1,
    ensures
        #![trigger b.put(kind, ty)]
        size(b.put(kind, ty).0) == (size(b).0 + 1, size(b).1),
        place(b.put(kind, ty).0) == place(b),
        forall|id: BlockId| id.0 < size(b).1 ==> #[trigger] seen(b.put(kind, ty).0, id) == (if id
            == place(b) {
            BlockView {
                insts: seen(b, id).insts.push(
                    InstView { result: Some(b.put(kind, ty).1), kind, span: b.span },
                ),
                ..seen(b, id)
            }
        } else {
            seen(b, id)
        }),
{
    reveal(seen);
    reveal(size);
    reveal(place);
    reveal(BuilderView::put);
}

pub(crate) broadcast proof fn emit_void_is_seen(b: BuilderView, kind: InstKindView)
    requires
        place(b).0 < size(b).1,
    ensures
        #![trigger b.emit_void(kind)]
        size(b.emit_void(kind)) == size(b),
        place(b.emit_void(kind)) == place(b),
        forall|id: BlockId| id.0 < size(b).1 ==> #[trigger] seen(b.emit_void(kind), id) == (if id
            == place(b) {
            BlockView {
                insts: seen(b, id).insts.push(InstView { result: None, kind, span: b.span }),
                ..seen(b, id)
            }
        } else {
            seen(b, id)
        }),
{
    reveal(seen);
    reveal(size);
    reveal(place);
    reveal(BuilderView::emit_void);
}

pub(crate) broadcast proof fn terminate_is_seen(b: BuilderView, term: TerminatorView)
    requires
        place(b).0 < size(b).1,
    ensures
        #![trigger b.terminate(term)]
        size(b.terminate(term)) == size(b),
        place(b.terminate(term)) == place(b),
        forall|id: BlockId| id.0 < size(b).1 ==> #[trigger] seen(b.terminate(term), id) == (if id
            == place(b) {
            BlockView { term: Some(term), ..seen(b, id) }
        } else {
            seen(b, id)
        }),
{
    reveal(seen);
    reveal(size);
    reveal(place);
    reveal(BuilderView::terminate);
}

pub(crate) broadcast proof fn open_block_is_seen(b: BuilderView)
    requires
        size(b).1 < id_limit(),
    ensures
        #![trigger b.open_block()]
        size(b.open_block().0) == (size(b).0, size(b).1 + 1),
        place(b.open_block().0) == place(b),
        b.open_block().1.0 == size(b).1,
        seen(b.open_block().0, b.open_block().1) == BlockView::empty(),
        forall|id: BlockId|
            id.0 < size(b).1 ==> #[trigger] seen(b.open_block().0, id) == seen(b, id),
{
    reveal(seen);
    reveal(size);
    reveal(place);
    reveal(BuilderView::open_block);
}

pub(crate) broadcast proof fn open_param_is_seen(b: BuilderView, block: BlockId, ty: TyView)
    requires
        block.0 < size(b).1,
    ensures
        #![trigger b.open_param(block, ty)]
        size(b.open_param(block, ty).0) == (size(b).0 + 1, size(b).1),
        place(b.open_param(block, ty).0) == place(b),
        forall|id: BlockId|
            id.0 < size(b).1 ==> #[trigger] seen(b.open_param(block, ty).0, id) == (if id == block {
                BlockView {
                    params: seen(b, id).params.push(b.open_param(block, ty).1),
                    ..seen(b, id)
                }
            } else {
                seen(b, id)
            }),
{
    reveal(seen);
    reveal(size);
    reveal(place);
    reveal(BuilderView::open_param);
}

pub(crate) broadcast proof fn switch_to_is_seen(b: BuilderView, block: BlockId)
    ensures
        #![trigger b.switch_to(block)]
        size(b.switch_to(block)) == size(b),
        place(b.switch_to(block)) == block,
        forall|id: BlockId| #[trigger] seen(b.switch_to(block), id) == seen(b, id),
{
    reveal(seen);
    reveal(size);
    reveal(place);
    reveal(BuilderView::switch_to);
}

pub(crate) broadcast proof fn a_function_is_seen(b: BuilderView, id: BlockId)
    ensures
        #[trigger] b.function.block(id) == seen(b, id),
{
    reveal(seen);
}

pub(crate) broadcast proof fn a_reserved_function_is_seen(
    name: Seq<char>,
    arity: nat,
    result: TyView,
    span: Span,
)
    ensures
        ({
            let b = BuilderView {
                function: #[trigger] reserved_view(name, arity, result, span),
                current: BlockId(0),
                span,
            };
            &&& size(b).1 == 1
            &&& place(b) == BlockId(0)
            &&& seen(b, BlockId(0)).insts == Seq::<InstView>::empty()
            &&& seen(b, BlockId(0)).params.len() == arity
        }),
{
    reveal(seen);
    reveal(size);
    reveal(place);
}

/// What was passed is read, in order, from the fields of the frame it was put into.
pub proof fn parameters_are_read(b: BuilderView, frame: Value, params: Seq<TyView>, count: nat)
    requires
        place(b).0 < size(b).1,
    ensures
        ({
            let (after, loaded) = load_params_code(b, frame, params, count);
            &&& size(after) == (size(b).0 + count, size(b).1)
            &&& place(after) == place(b)
            &&& forall|id: BlockId|
                id.0 < size(b).1 && id != place(b) ==> #[trigger] seen(after, id) == seen(b, id)
            &&& seen(after, place(b)).term == seen(b, place(b)).term
            &&& seen(after, place(b)).params == seen(b, place(b)).params
            &&& loaded.len() == count
            &&& seen(after, place(b)).insts.len() == seen(b, place(b)).insts.len() + count
            &&& forall|k: int|
                0 <= k < seen(b, place(b)).insts.len() ==> #[trigger] seen(
                    after,
                    place(b),
                ).insts[k] == seen(b, place(b)).insts[k]
            &&& forall|k: int|
                0 <= k < count ==> (#[trigger] seen(after, place(b)).insts[seen(
                    b,
                    place(b),
                ).insts.len() + k]).kind == (InstKindView::GetField {
                    object: frame,
                    field: (FIRST_PARAM + k) as u32,
                }) && seen(after, place(b)).insts[seen(b, place(b)).insts.len() + k].result
                    == Some(loaded[k])
        }),
    decreases count,
{
    broadcast use put_is_seen;

    if count > 0 {
        parameters_are_read(b, frame, params, (count - 1) as nat);
        let (held, before) = load_params_code(b, frame, params, (count - 1) as nat);
        let (after, loaded) = load_params_code(b, frame, params, count);
        let start = seen(b, place(b)).insts.len() as int;
        let earlier = seen(held, place(b)).insts;
        let now = seen(after, place(b)).insts;
        assert(now == earlier.push(now.last()));
        assert forall|k: int| 0 <= k < count implies (#[trigger] now[start + k]).kind == (
        InstKindView::GetField { object: frame, field: (FIRST_PARAM + k) as u32 })
            && now[start + k].result == Some(loaded[k]) by {
            if k < count - 1 {
                assert(now[start + k] == earlier[start + k]);
                assert(loaded[k] == before[k]);
            }
        }
    }
}

pub(crate) broadcast proof fn load_params_is_seen(
    b: BuilderView,
    frame: Value,
    params: Seq<TyView>,
    count: nat,
)
    requires
        place(b).0 < size(b).1,
    ensures
        #![trigger load_params_code(b, frame, params, count)]
        size(load_params_code(b, frame, params, count).0) == (size(b).0 + count, size(b).1),
        place(load_params_code(b, frame, params, count).0) == place(b),
        forall|id: BlockId|
            id.0 < size(b).1 && id != place(b) ==> #[trigger] seen(
                load_params_code(b, frame, params, count).0,
                id,
            ) == seen(b, id),
{
    parameters_are_read(b, frame, params, count);
}

pub broadcast group writing {
    put_is_seen,
    emit_void_is_seen,
    terminate_is_seen,
    open_block_is_seen,
    open_param_is_seen,
    switch_to_is_seen,
    a_function_is_seen,
    a_reserved_function_is_seen,
    load_params_is_seen,
}

/// What is written is what is seen.
pub proof fn what_is_written(b: BuilderView)
    ensures
        size(b) == (b.function.values.len(), b.function.blocks.len()),
        place(b) == b.current,
        forall|id: BlockId| #[trigger] seen(b, id) == b.function.block(id),
{
    reveal(seen);
    reveal(size);
    reveal(place);
}

/// What cancellation delivers carries what it is: a `Cancelled` where that type is
/// there, and an error that says so where it is not.
#[verifier::rlimit(60)]
pub proof fn what_cancellation_delivers(
    b: BuilderView,
    cancelled: Option<TypeId>,
)
    requires
        b.current.0 < b.function.blocks.len(),
        b.function.blocks.len() + 0 <= id_limit(),
        b.function.values.len() + 3 <= id_limit(),
    ensures
        ({
            let f = cancellation_code(b, cancelled).0.function;
            let base = b.function.blocks.len();
            let before = b.function.block(b.current).insts.len() as int;
            &&& cancelled matches Some(id) ==> {
                let here = f.block(b.current);
                &&& here.insts.len() == before + 2
                &&& here.insts.take(before) == b.function.block(b.current).insts
                &&& here.params == b.function.block(b.current).params
                &&& makes(
                    here,
                    before + 0,
                    InstKindView::MakeStruct {
                        ty: named_view(id),
                        fields: Seq::empty(),
                        allocation: Allocation::Managed,
                    },
                )
                &&& makes(
                    here,
                    before + 1,
                    InstKindView::MakeDyn { interface: None, value: given(here, before + 0) },
                )
                &&& cancellation_code(b, cancelled).1 == given(here, before + 1)
            }
            &&& (cancelled is None) ==> {
                let here = f.block(b.current);
                &&& here.insts.len() == before + 3
                &&& here.insts.take(before) == b.function.block(b.current).insts
                &&& here.params == b.function.block(b.current).params
                &&& makes(here, before + 0, InstKindView::Const(ConstView::Str("cancelled"@)))
                &&& makes(
                    here,
                    before + 1,
                    InstKindView::MakeError { message: given(here, before + 0) },
                )
                &&& makes(
                    here,
                    before + 2,
                    InstKindView::MakeDyn { interface: None, value: given(here, before + 1) },
                )
                &&& cancellation_code(b, cancelled).1 == given(here, before + 2)
            }
            &&& forall|id: BlockId|
                id.0 < base && id != b.current ==> #[trigger] f.block(id) == b.function.block(id)
        }),
{
    broadcast use writing;

    what_is_written(b);
}

/// A request is due where the task has one and it was not delivered yet.
#[verifier::rlimit(60)]
pub proof fn a_request_is_due_until_it_is_delivered(
    b: BuilderView,
    me: Value,
)
    requires
        b.current.0 < b.function.blocks.len(),
        b.function.blocks.len() + 0 <= id_limit(),
        b.function.values.len() + 5 <= id_limit(),
    ensures
        ({
            let f = due_request_code(b, me).0.function;
            let base = b.function.blocks.len();
            let before = b.function.block(b.current).insts.len() as int;
            let here = f.block(b.current);
            &&& here.insts.len() == before + 5
            &&& here.insts.take(before) == b.function.block(b.current).insts
            &&& here.params == b.function.block(b.current).params
            &&& makes(here, before + 0, InstKindView::GetField { object: me, field: REQUEST })
            &&& makes(here, before + 1, InstKindView::GetField { object: me, field: DELIVERED })
            &&& makes(here, before + 2, InstKindView::IsSome { value: given(here, before + 0) })
            &&& makes(
                here,
                before + 3,
                InstKindView::Unary { op: UnaryOp::Not, operand: given(here, before + 1) },
            )
            &&& makes(
                here,
                before + 4,
                InstKindView::Binary {
                    op: BinaryOp::BitAnd,
                    left: given(here, before + 2),
                    right: given(here, before + 3),
                },
            )
            &&& due_request_code(b, me).1.0 == given(here, before + 0)
            &&& due_request_code(b, me).1.1 == given(here, before + 4)
            &&& forall|id: BlockId|
                id.0 < base && id != b.current ==> #[trigger] f.block(id) == b.function.block(id)
        }),
{
    broadcast use writing;

    what_is_written(b);
}

/// Delivering a request marks it delivered, and gives a completion that failed with
/// what was requested.
#[verifier::rlimit(60)]
pub proof fn delivering_a_request_marks_it(
    b: BuilderView,
    me: Value,
    request: Value,
    completion_ty: TyView,
)
    requires
        b.current.0 < b.function.blocks.len(),
        b.function.blocks.len() + 0 <= id_limit(),
        b.function.values.len() + 3 <= id_limit(),
    ensures
        ({
            let f = deliver_code(b, me, request, completion_ty).0.function;
            let base = b.function.blocks.len();
            let before = b.function.block(b.current).insts.len() as int;
            let here = f.block(b.current);
            &&& here.insts.len() == before + 4
            &&& here.insts.take(before) == b.function.block(b.current).insts
            &&& here.params == b.function.block(b.current).params
            &&& makes(here, before + 0, InstKindView::Const(ConstView::Bool(true)))
            &&& only_does(
                here,
                before + 1,
                InstKindView::SetField {
                    object: me,
                    field: DELIVERED,
                    value: given(here, before + 0),
                },
            )
            &&& makes(here, before + 2, InstKindView::Unwrap { value: request })
            &&& makes(
                here,
                before + 3,
                InstKindView::MakeEnum {
                    ty: completion_ty,
                    variant: 1,
                    payload: seq![given(here, before + 2)],
                },
            )
            &&& deliver_code(b, me, request, completion_ty).1 == given(here, before + 3)
            &&& forall|id: BlockId|
                id.0 < base && id != b.current ==> #[trigger] f.block(id) == b.function.block(id)
        }),
{
    broadcast use writing;

    what_is_written(b);
}

/// A completion threw where its tag is that of its error half.
#[verifier::rlimit(60)]
pub proof fn a_completion_says_whether_it_threw(
    b: BuilderView,
    completion: Value,
)
    requires
        b.current.0 < b.function.blocks.len(),
        b.function.blocks.len() + 0 <= id_limit(),
        b.function.values.len() + 3 <= id_limit(),
    ensures
        ({
            let f = threw_code(b, completion).0.function;
            let base = b.function.blocks.len();
            let before = b.function.block(b.current).insts.len() as int;
            let here = f.block(b.current);
            &&& here.insts.len() == before + 3
            &&& here.insts.take(before) == b.function.block(b.current).insts
            &&& here.params == b.function.block(b.current).params
            &&& makes(here, before + 0, InstKindView::GetTag { value: completion })
            &&& makes(here, before + 1, InstKindView::Const(ConstView::Int(1)))
            &&& makes(
                here,
                before + 2,
                InstKindView::Binary {
                    op: BinaryOp::Equal,
                    left: given(here, before + 0),
                    right: given(here, before + 1),
                },
            )
            &&& threw_code(b, completion).1 == given(here, before + 2)
            &&& forall|id: BlockId|
                id.0 < base && id != b.current ==> #[trigger] f.block(id) == b.function.block(id)
        }),
{
    broadcast use writing;

    what_is_written(b);
}

/// Where a request is due, it is marked delivered and what follows receives it; where
/// none is, what follows receives nothing.
#[verifier::rlimit(60)]
pub proof fn a_cancellation_point_hands_on_what_is_due(
    b: BuilderView,
    me: Value,
    post: BlockId,
)
    requires
        b.current.0 < b.function.blocks.len(),
        b.function.blocks.len() + 2 <= id_limit(),
        b.function.values.len() + 7 <= id_limit(),
        post.0 < b.function.blocks.len(),
    ensures
        ({
            let f = expand_point_code(b, me, post).function;
            let base = b.function.blocks.len();
            let before = b.function.block(b.current).insts.len() as int;
            let here = f.block(b.current);
            let at_0 = f.block(BlockId((base + 0) as u32));
            let at_1 = f.block(BlockId((base + 1) as u32));
            &&& here.insts.len() == before + 5
            &&& here.insts.take(before) == b.function.block(b.current).insts
            &&& here.params == b.function.block(b.current).params
            &&& makes(here, before + 0, InstKindView::GetField { object: me, field: REQUEST })
            &&& makes(here, before + 1, InstKindView::GetField { object: me, field: DELIVERED })
            &&& makes(here, before + 2, InstKindView::IsSome { value: given(here, before + 0) })
            &&& makes(
                here,
                before + 3,
                InstKindView::Unary { op: UnaryOp::Not, operand: given(here, before + 1) },
            )
            &&& makes(
                here,
                before + 4,
                InstKindView::Binary {
                    op: BinaryOp::BitAnd,
                    left: given(here, before + 2),
                    right: given(here, before + 3),
                },
            )
            &&& ends(
                here,
                TerminatorView::Branch {
                    condition: given(here, before + 4),
                    then: TargetView::to(BlockId((base + 0) as u32)),
                    otherwise: TargetView::to(BlockId((base + 1) as u32)),
                },
            )
            &&& at_0.insts.len() == 2
            &&& makes(at_0, 0, InstKindView::Const(ConstView::Bool(true)))
            &&& only_does(
                at_0,
                1,
                InstKindView::SetField { object: me, field: DELIVERED, value: given(at_0, 0) },
            )
            &&& ends(
                at_0,
                TerminatorView::Jump(
                    TargetView { block: post, args: seq![given(here, before + 0)] },
                ),
            )
            &&& at_0.params.len() == 0
            &&& at_1.insts.len() == 1
            &&& makes(at_1, 0, InstKindView::Const(ConstView::Nil))
            &&& ends(
                at_1,
                TerminatorView::Jump(TargetView { block: post, args: seq![given(at_1, 0)] }),
            )
            &&& at_1.params.len() == 0
            &&& forall|id: BlockId|
                id.0 < base && id != b.current ==> #[trigger] f.block(id) == b.function.block(id)
        }),
{
    broadcast use writing;

    what_is_written(b);
}

/// An await asks whether the task has a completion. Where it has, that is unwrapped,
/// and what follows receives it. Where it has none, the task is started unless it was,
/// the wait is recorded, the state is stored, and the function gives back `false`.
/// Resumed, it delivers a request that is due, as a failed completion, and otherwise
/// asks again. So no completion is unwrapped that is not there, and none that is there
/// is waited for.
#[verifier::rlimit(60)]
pub proof fn an_await_goes_on_only_with_a_completion(
    b: BuilderView,
    runtime: Runtime,
    frame: Value,
    me: Value,
    task: Value,
    completion_ty: TyView,
    state: u64,
    post: BlockId,
)
    requires
        b.current.0 < b.function.blocks.len(),
        b.function.blocks.len() + 7 <= id_limit(),
        b.function.values.len() + 21 <= id_limit(),
        post.0 < b.function.blocks.len(),
    ensures
        ({
            let f = expand_await_code(
                b,
                runtime,
                frame,
                me,
                task,
                completion_ty,
                state,
                post,
            ).0.function;
            let base = b.function.blocks.len();
            let before = b.function.block(b.current).insts.len() as int;
            let here = f.block(b.current);
            let at_0 = f.block(BlockId((base + 0) as u32));
            let at_1 = f.block(BlockId((base + 1) as u32));
            let at_2 = f.block(BlockId((base + 2) as u32));
            let at_3 = f.block(BlockId((base + 3) as u32));
            let at_4 = f.block(BlockId((base + 4) as u32));
            let at_5 = f.block(BlockId((base + 5) as u32));
            let at_6 = f.block(BlockId((base + 6) as u32));
            &&& here.insts.len() == before + 0
            &&& here.insts.take(before) == b.function.block(b.current).insts
            &&& here.params == b.function.block(b.current).params
            &&& ends(here, TerminatorView::Jump(TargetView::to(BlockId((base + 0) as u32))))
            &&& at_0.insts.len() == 2
            &&& makes(at_0, 0, InstKindView::GetField { object: task, field: COMPLETION })
            &&& makes(at_0, 1, InstKindView::IsSome { value: given(at_0, 0) })
            &&& ends(
                at_0,
                TerminatorView::Branch {
                    condition: given(at_0, 1),
                    then: TargetView::to(BlockId((base + 1) as u32)),
                    otherwise: TargetView::to(BlockId((base + 2) as u32)),
                },
            )
            &&& at_0.params.len() == 0
            &&& at_1.insts.len() == 1
            &&& makes(at_1, 0, InstKindView::Unwrap { value: given(at_0, 0) })
            &&& ends(
                at_1,
                TerminatorView::Jump(TargetView { block: post, args: seq![given(at_1, 0)] }),
            )
            &&& at_1.params.len() == 0
            &&& at_2.insts.len() == 1
            &&& makes(at_2, 0, InstKindView::GetField { object: task, field: STARTED })
            &&& ends(
                at_2,
                TerminatorView::Branch {
                    condition: given(at_2, 0),
                    then: TargetView::to(BlockId((base + 4) as u32)),
                    otherwise: TargetView::to(BlockId((base + 3) as u32)),
                },
            )
            &&& at_2.params.len() == 0
            &&& at_3.insts.len() == 3
            &&& makes(at_3, 0, InstKindView::MakeDyn { interface: None, value: me })
            &&& makes(at_3, 1, InstKindView::MakeDyn { interface: None, value: task })
            &&& makes(
                at_3,
                2,
                InstKindView::Call {
                    callee: runtime.start,
                    type_args: Seq::empty(),
                    args: seq![given(at_3, 0), given(at_3, 1)],
                },
            )
            &&& ends(at_3, TerminatorView::Jump(TargetView::to(BlockId((base + 4) as u32))))
            &&& at_3.params.len() == 0
            &&& at_4.insts.len() == 6
            &&& makes(at_4, 0, InstKindView::MakeDyn { interface: None, value: me })
            &&& makes(at_4, 1, InstKindView::MakeDyn { interface: None, value: task })
            &&& makes(
                at_4,
                2,
                InstKindView::Call {
                    callee: runtime.wait,
                    type_args: Seq::empty(),
                    args: seq![given(at_4, 0), given(at_4, 1)],
                },
            )
            &&& makes(at_4, 3, InstKindView::Const(ConstView::Int(state)))
            &&& only_does(
                at_4,
                4,
                InstKindView::SetField { object: frame, field: STATE, value: given(at_4, 3) },
            )
            &&& makes(at_4, 5, InstKindView::Const(ConstView::Bool(false)))
            &&& ends(at_4, TerminatorView::Return(given(at_4, 5)))
            &&& at_4.params.len() == 0
            &&& at_5.insts.len() == 7
            &&& makes(at_5, 0, InstKindView::Const(ConstView::Nil))
            &&& only_does(
                at_5,
                1,
                InstKindView::SetField { object: me, field: WAITING, value: given(at_5, 0) },
            )
            &&& makes(at_5, 2, InstKindView::GetField { object: me, field: REQUEST })
            &&& makes(at_5, 3, InstKindView::GetField { object: me, field: DELIVERED })
            &&& makes(at_5, 4, InstKindView::IsSome { value: given(at_5, 2) })
            &&& makes(at_5, 5, InstKindView::Unary { op: UnaryOp::Not, operand: given(at_5, 3) })
            &&& makes(
                at_5,
                6,
                InstKindView::Binary {
                    op: BinaryOp::BitAnd,
                    left: given(at_5, 4),
                    right: given(at_5, 5),
                },
            )
            &&& ends(
                at_5,
                TerminatorView::Branch {
                    condition: given(at_5, 6),
                    then: TargetView::to(BlockId((base + 6) as u32)),
                    otherwise: TargetView::to(BlockId((base + 0) as u32)),
                },
            )
            &&& at_5.params.len() == 0
            &&& at_6.insts.len() == 4
            &&& makes(at_6, 0, InstKindView::Const(ConstView::Bool(true)))
            &&& only_does(
                at_6,
                1,
                InstKindView::SetField { object: me, field: DELIVERED, value: given(at_6, 0) },
            )
            &&& makes(at_6, 2, InstKindView::Unwrap { value: given(at_5, 2) })
            &&& makes(
                at_6,
                3,
                InstKindView::MakeEnum {
                    ty: completion_ty,
                    variant: 1,
                    payload: seq![given(at_6, 2)],
                },
            )
            &&& ends(
                at_6,
                TerminatorView::Jump(TargetView { block: post, args: seq![given(at_6, 3)] }),
            )
            &&& at_6.params.len() == 0
            &&& expand_await_code(
                b,
                runtime,
                frame,
                me,
                task,
                completion_ty,
                state,
                post,
            ).1 == BlockId((base + 5) as u32)
            &&& forall|id: BlockId|
                id.0 < base && id != b.current ==> #[trigger] f.block(id) == b.function.block(id)
        }),
{
    broadcast use writing;

    what_is_written(b);
}

/// Whether a block does something, and gives `value` for it.
pub open spec fn gives(block: BlockView, kind: InstKindView, value: Value) -> bool {
    exists|i: int|
        0 <= i < block.insts.len() && (#[trigger] block.insts[i]).kind == kind
            && block.insts[i].result == Some(value)
}

/// Whether a block tells that `value` holds something wherever `condition` holds.
pub open spec fn tells(block: BlockView, condition: Value, value: Value) -> bool {
    ||| gives(block, InstKindView::IsSome { value }, condition)
    ||| exists|left: Value, right: Value|
        {
            &&& #[trigger] gives(
                block,
                InstKindView::Binary { op: BinaryOp::BitAnd, left, right },
                condition,
            )
            &&& gives(block, InstKindView::IsSome { value }, left)
        }
}

/// Whether a block goes to another only where `value` holds something.
pub open spec fn goes_only_with(from: BlockView, to: BlockId, value: Value) -> bool {
    from.term matches Some(TerminatorView::Branch { condition, then, otherwise }) && then.block
        == to && otherwise.block != to && tells(from, condition, value)
}

/// Whether a block goes to another at all.
pub open spec fn leads_to(from: BlockView, to: BlockId) -> bool {
    from.term matches Some(term) && exists|i: int|
        0 <= i < term.targets().len() && (#[trigger] term.targets()[i]).block == to
}

proof fn it_gives(block: BlockView, i: int)
    requires
        0 <= i < block.insts.len(),
        block.insts[i].result is Some,
    ensures
        gives(block, block.insts[i].kind, given(block, i)),
{
}

/// An await takes out only what is there: each block it writes that unwraps a value is
/// reached, from what it writes, only where a test told that the value holds something.
pub proof fn an_await_takes_out_only_what_is_there(
    b: BuilderView,
    runtime: Runtime,
    frame: Value,
    me: Value,
    task: Value,
    completion_ty: TyView,
    state: u64,
    post: BlockId,
    from: BlockId,
    to: BlockId,
    i: int,
)
    requires
        b.current.0 < b.function.blocks.len(),
        b.function.blocks.len() + 7 <= id_limit(),
        b.function.values.len() + 21 <= id_limit(),
        post.0 < b.function.blocks.len(),
        from == b.current || b.function.blocks.len() <= from.0 < b.function.blocks.len() + 7,
        b.function.blocks.len() <= to.0 < b.function.blocks.len() + 7,
    ensures
        ({
            let f = expand_await_code(
                b,
                runtime,
                frame,
                me,
                task,
                completion_ty,
                state,
                post,
            ).0.function;
            0 <= i < f.block(to).insts.len() && leads_to(f.block(from), to) ==> (f.block(
                to,
            ).insts[i].kind matches InstKindView::Unwrap { value } ==> goes_only_with(
                f.block(from),
                to,
                value,
            ))
        }),
{
    an_await_goes_on_only_with_a_completion(
        b,
        runtime,
        frame,
        me,
        task,
        completion_ty,
        state,
        post,
    );
    let f = expand_await_code(
        b,
        runtime,
        frame,
        me,
        task,
        completion_ty,
        state,
        post,
    ).0.function;
    let base = b.function.blocks.len();
    let asks = f.block(BlockId(base as u32));
    let resumes = f.block(BlockId((base + 5) as u32));
    it_gives(asks, 1);
    it_gives(resumes, 4);
    it_gives(resumes, 6);
    let term = f.block(from).term;
    assert(from.0 == base ==> term->Some_0.targets() == seq![
        term->Some_0->then,
        term->Some_0->otherwise,
    ]);
    let which: int = to.0 - base;
    assert(which == 0 || which == 1 || which == 2 || which == 3 || which == 4 || which == 5
        || which == 6);
    let source: int = from.0 - base;
    assert(from == b.current || source == 0 || source == 1 || source == 2 || source == 3
        || source == 4 || source == 5 || source == 6);
}

/// An await goes on with what the awaited task completed with, and only with that or with
/// a request: where the task has a completion, what follows receives it, and where it has
/// none, what follows is not reached.
pub proof fn an_await_goes_on_where_there_is_a_completion(
    b: BuilderView,
    runtime: Runtime,
    frame: Value,
    me: Value,
    task: Value,
    completion_ty: TyView,
    state: u64,
    post: BlockId,
    from: BlockId,
    read: int,
    asked: int,
)
    requires
        b.current.0 < b.function.blocks.len(),
        b.function.blocks.len() + 7 <= id_limit(),
        b.function.values.len() + 21 <= id_limit(),
        post.0 < b.function.blocks.len(),
        b.function.blocks.len() <= from.0 < b.function.blocks.len() + 7,
    ensures
        ({
            let f = expand_await_code(
                b,
                runtime,
                frame,
                me,
                task,
                completion_ty,
                state,
                post,
            ).0.function;
            let here = f.block(from);
            0 <= read < here.insts.len() && 0 <= asked < here.insts.len()
                && here.insts[read].kind == (InstKindView::GetField {
                object: task,
                field: COMPLETION,
            }) && here.insts[asked].kind == (InstKindView::IsSome {
                value: given(here, read),
            }) ==> (here.term matches Some(TerminatorView::Branch { condition, then, otherwise })
                && condition == given(here, asked) && (f.block(then.block).term matches Some(
                TerminatorView::Jump(on),
            ) && on.block == post && on.args.len() == 1 && gives(
                f.block(then.block),
                InstKindView::Unwrap { value: given(here, read) },
                on.args[0],
            )) && !leads_to(f.block(otherwise.block), post))
        }),
{
    an_await_goes_on_only_with_a_completion(
        b,
        runtime,
        frame,
        me,
        task,
        completion_ty,
        state,
        post,
    );
    let f = expand_await_code(
        b,
        runtime,
        frame,
        me,
        task,
        completion_ty,
        state,
        post,
    ).0.function;
    let base = b.function.blocks.len();
    it_gives(f.block(BlockId((base + 1) as u32)), 0);
    let source: int = from.0 - base;
    assert(source == 0 || source == 1 || source == 2 || source == 3 || source == 4 || source == 5
        || source == 6);
}

/// An await asks first of all whether the awaited task has a completion.
pub proof fn an_await_asks_first(
    b: BuilderView,
    runtime: Runtime,
    frame: Value,
    me: Value,
    task: Value,
    completion_ty: TyView,
    state: u64,
    post: BlockId,
)
    requires
        b.current.0 < b.function.blocks.len(),
        b.function.blocks.len() + 7 <= id_limit(),
        b.function.values.len() + 21 <= id_limit(),
        post.0 < b.function.blocks.len(),
    ensures
        ({
            let f = expand_await_code(
                b,
                runtime,
                frame,
                me,
                task,
                completion_ty,
                state,
                post,
            ).0.function;
            f.block(b.current).term matches Some(TerminatorView::Jump(to)) && exists|
                completion: Value,
            |
                #[trigger] gives(
                    f.block(to.block),
                    InstKindView::GetField { object: task, field: COMPLETION },
                    completion,
                ) && (f.block(to.block).term matches Some(
                    TerminatorView::Branch { condition, .. },
                ) && gives(
                    f.block(to.block),
                    InstKindView::IsSome { value: completion },
                    condition,
                ))
        }),
{
    an_await_goes_on_only_with_a_completion(
        b,
        runtime,
        frame,
        me,
        task,
        completion_ty,
        state,
        post,
    );
    let f = expand_await_code(
        b,
        runtime,
        frame,
        me,
        task,
        completion_ty,
        state,
        post,
    ).0.function;
    let asks = f.block(BlockId(b.function.blocks.len() as u32));
    it_gives(asks, 0);
    it_gives(asks, 1);
}

/// A task that is queued is left alone; one that is not is marked queued and put last
/// in the queue of the scheduler.
#[verifier::rlimit(60)]
pub proof fn a_task_is_queued_once(
    scheduler_ty: TyView,
    span: Span,
)
    ensures
        ({
            let f = enqueue_code(scheduler_ty, span);
            let at_0 = f.block(BlockId(0));
            let at_1 = f.block(BlockId(1));
            let at_2 = f.block(BlockId(2));
            &&& at_0.insts.len() == 2
            &&& makes(at_0, 0, InstKindView::DynValue { value: Value(1) })
            &&& makes(at_0, 1, InstKindView::GetField { object: given(at_0, 0), field: QUEUED })
            &&& ends(
                at_0,
                TerminatorView::Branch {
                    condition: given(at_0, 1),
                    then: TargetView::to(BlockId(2)),
                    otherwise: TargetView::to(BlockId(1)),
                },
            )
            &&& at_1.insts.len() == 5
            &&& makes(at_1, 0, InstKindView::Const(ConstView::Bool(true)))
            &&& only_does(
                at_1,
                1,
                InstKindView::SetField {
                    object: given(at_0, 0),
                    field: QUEUED,
                    value: given(at_1, 0),
                },
            )
            &&& makes(at_1, 2, InstKindView::DynValue { value: Value(0) })
            &&& makes(at_1, 3, InstKindView::GetField { object: given(at_1, 2), field: QUEUE })
            &&& only_does(
                at_1,
                4,
                InstKindView::ListPush { receiver: given(at_1, 3), value: Value(1) },
            )
            &&& ends(at_1, TerminatorView::Jump(TargetView::to(BlockId(2))))
            &&& at_1.params.len() == 0
            &&& at_2.insts.len() == 1
            &&& makes(at_2, 0, InstKindView::Const(ConstView::Unit))
            &&& ends(at_2, TerminatorView::Return(given(at_2, 0)))
            &&& at_2.params.len() == 0
        }),
{
    broadcast use writing;

    reveal(enqueue_code);
}

/// A task that is started has the scheduler of the task that starts it, is owned by the
/// scope active there, and is one of its children. Where that scope was cancelled, it
/// is cancelled with what was requested; where it was not, it is marked started and
/// queued.
#[verifier::rlimit(60)]
pub proof fn a_started_task_belongs_to_the_scope_that_starts_it(
    runtime: Runtime,
    span: Span,
)
    ensures
        ({
            let f = start_code(runtime, span);
            let at_0 = f.block(BlockId(0));
            let at_1 = f.block(BlockId(1));
            let at_2 = f.block(BlockId(2));
            let at_3 = f.block(BlockId(3));
            &&& at_0.insts.len() == 12
            &&& makes(at_0, 0, InstKindView::DynValue { value: Value(1) })
            &&& makes(at_0, 1, InstKindView::DynValue { value: Value(0) })
            &&& makes(at_0, 2, InstKindView::GetField { object: given(at_0, 1), field: SCHEDULER })
            &&& only_does(
                at_0,
                3,
                InstKindView::SetField {
                    object: given(at_0, 0),
                    field: SCHEDULER,
                    value: given(at_0, 2),
                },
            )
            &&& makes(
                at_0,
                4,
                InstKindView::GetField { object: given(at_0, 1), field: ACTIVE_SCOPE },
            )
            &&& makes(at_0, 5, InstKindView::MakeDyn { interface: None, value: given(at_0, 4) })
            &&& makes(at_0, 6, InstKindView::MakeSome { value: given(at_0, 5) })
            &&& only_does(
                at_0,
                7,
                InstKindView::SetField {
                    object: given(at_0, 0),
                    field: OWNER,
                    value: given(at_0, 6),
                },
            )
            &&& makes(
                at_0,
                8,
                InstKindView::GetField { object: given(at_0, 4), field: SCOPE_CHILDREN },
            )
            &&& only_does(
                at_0,
                9,
                InstKindView::ListPush { receiver: given(at_0, 8), value: Value(1) },
            )
            &&& makes(
                at_0,
                10,
                InstKindView::GetField { object: given(at_0, 4), field: SCOPE_REQUEST },
            )
            &&& makes(at_0, 11, InstKindView::IsSome { value: given(at_0, 10) })
            &&& ends(
                at_0,
                TerminatorView::Branch {
                    condition: given(at_0, 11),
                    then: TargetView::to(BlockId(1)),
                    otherwise: TargetView::to(BlockId(2)),
                },
            )
            &&& at_1.insts.len() == 2
            &&& makes(at_1, 0, InstKindView::Unwrap { value: given(at_0, 10) })
            &&& makes(
                at_1,
                1,
                InstKindView::Call {
                    callee: runtime.cancel,
                    type_args: Seq::empty(),
                    args: seq![Value(1), given(at_1, 0)],
                },
            )
            &&& ends(at_1, TerminatorView::Jump(TargetView::to(BlockId(3))))
            &&& at_1.params.len() == 0
            &&& at_2.insts.len() == 3
            &&& makes(at_2, 0, InstKindView::Const(ConstView::Bool(true)))
            &&& only_does(
                at_2,
                1,
                InstKindView::SetField {
                    object: given(at_0, 0),
                    field: STARTED,
                    value: given(at_2, 0),
                },
            )
            &&& makes(
                at_2,
                2,
                InstKindView::Call {
                    callee: runtime.enqueue,
                    type_args: Seq::empty(),
                    args: seq![given(at_0, 2), Value(1)],
                },
            )
            &&& ends(at_2, TerminatorView::Jump(TargetView::to(BlockId(3))))
            &&& at_2.params.len() == 0
            &&& at_3.insts.len() == 1
            &&& makes(at_3, 0, InstKindView::Const(ConstView::Unit))
            &&& ends(at_3, TerminatorView::Return(given(at_3, 0)))
            &&& at_3.params.len() == 0
        }),
{
    broadcast use writing;

    reveal(start_code);
}

/// Completing a task queues each task that waits for it, from the first on. Where it is
/// owned and failed, other than by cancellation, the failure is recorded with the
/// owner, which is cancelled.
#[verifier::rlimit(60)]
pub proof fn a_completed_task_wakes_what_waits_for_it(
    runtime: Runtime,
    cancelled: Option<TypeId>,
    span: Span,
)
    ensures
        ({
            let f = wake_code(runtime, cancelled, span);
            &&& cancelled matches Some(id) ==> {
                let at_0 = f.block(BlockId(0));
                let at_1 = f.block(BlockId(1));
                let at_2 = f.block(BlockId(2));
                let at_3 = f.block(BlockId(3));
                let at_4 = f.block(BlockId(4));
                let at_5 = f.block(BlockId(5));
                let at_6 = f.block(BlockId(6));
                let at_7 = f.block(BlockId(7));
                &&& at_0.insts.len() == 3
                &&& makes(at_0, 0, InstKindView::DynValue { value: Value(0) })
                &&& makes(at_0, 1, InstKindView::GetField { object: given(at_0, 0), field: OWNER })
                &&& makes(at_0, 2, InstKindView::IsSome { value: given(at_0, 1) })
                &&& ends(
                    at_0,
                    TerminatorView::Branch {
                        condition: given(at_0, 2),
                        then: TargetView::to(BlockId(1)),
                        otherwise: TargetView::to(BlockId(2)),
                    },
                )
                &&& at_1.insts.len() == 5
                &&& makes(
                    at_1,
                    0,
                    InstKindView::GetField { object: given(at_0, 0), field: COMPLETION },
                )
                &&& makes(at_1, 1, InstKindView::Unwrap { value: given(at_1, 0) })
                &&& makes(at_1, 2, InstKindView::GetTag { value: given(at_1, 1) })
                &&& makes(at_1, 3, InstKindView::Const(ConstView::Int(1)))
                &&& makes(
                    at_1,
                    4,
                    InstKindView::Binary {
                        op: BinaryOp::Equal,
                        left: given(at_1, 2),
                        right: given(at_1, 3),
                    },
                )
                &&& ends(
                    at_1,
                    TerminatorView::Branch {
                        condition: given(at_1, 4),
                        then: TargetView::to(BlockId(3)),
                        otherwise: TargetView::to(BlockId(2)),
                    },
                )
                &&& at_1.params.len() == 0
                &&& at_2.insts.len() == 3
                &&& makes(
                    at_2,
                    0,
                    InstKindView::GetField { object: given(at_0, 0), field: WAITERS },
                )
                &&& makes(at_2, 1, InstKindView::Length { receiver: given(at_2, 0) })
                &&& makes(at_2, 2, InstKindView::Const(ConstView::Int(0)))
                &&& ends(
                    at_2,
                    TerminatorView::Jump(
                        TargetView { block: BlockId(5), args: seq![given(at_2, 2)] },
                    ),
                )
                &&& at_2.params.len() == 0
                &&& at_3.insts.len() == 2
                &&& makes(
                    at_3,
                    0,
                    InstKindView::GetPayload { value: given(at_1, 1), variant: 1, field: 0 },
                )
                &&& makes(
                    at_3,
                    1,
                    InstKindView::IsType { value: given(at_3, 0), ty: named_view(id) },
                )
                &&& ends(
                    at_3,
                    TerminatorView::Branch {
                        condition: given(at_3, 1),
                        then: TargetView::to(BlockId(2)),
                        otherwise: TargetView::to(BlockId(4)),
                    },
                )
                &&& at_3.params.len() == 0
                &&& at_4.insts.len() == 7
                &&& makes(at_4, 0, InstKindView::Unwrap { value: given(at_0, 1) })
                &&& makes(at_4, 1, InstKindView::DynValue { value: given(at_4, 0) })
                &&& makes(
                    at_4,
                    2,
                    InstKindView::GetField { object: given(at_4, 1), field: SCOPE_FAILURES },
                )
                &&& only_does(
                    at_4,
                    3,
                    InstKindView::ListPush { receiver: given(at_4, 2), value: Value(0) },
                )
                &&& makes(
                    at_4,
                    4,
                    InstKindView::MakeStruct {
                        ty: named_view(id),
                        fields: Seq::empty(),
                        allocation: Allocation::Managed,
                    },
                )
                &&& makes(at_4, 5, InstKindView::MakeDyn { interface: None, value: given(at_4, 4) })
                &&& makes(
                    at_4,
                    6,
                    InstKindView::Call {
                        callee: runtime.cancel_scope,
                        type_args: Seq::empty(),
                        args: seq![given(at_4, 0), given(at_4, 5)],
                    },
                )
                &&& ends(at_4, TerminatorView::Jump(TargetView::to(BlockId(2))))
                &&& at_4.params.len() == 0
                &&& at_5.insts.len() == 1
                &&& makes(
                    at_5,
                    0,
                    InstKindView::Binary {
                        op: BinaryOp::Equal,
                        left: at_5.params[0],
                        right: given(at_2, 1),
                    },
                )
                &&& ends(
                    at_5,
                    TerminatorView::Branch {
                        condition: given(at_5, 0),
                        then: TargetView::to(BlockId(7)),
                        otherwise: TargetView::to(BlockId(6)),
                    },
                )
                &&& at_5.params.len() == 1
                &&& at_6.insts.len() == 6
                &&& makes(
                    at_6,
                    0,
                    InstKindView::GetIndex { receiver: given(at_2, 0), index: at_5.params[0] },
                )
                &&& makes(at_6, 1, InstKindView::DynValue { value: given(at_6, 0) })
                &&& makes(
                    at_6,
                    2,
                    InstKindView::GetField { object: given(at_6, 1), field: SCHEDULER },
                )
                &&& makes(
                    at_6,
                    3,
                    InstKindView::Call {
                        callee: runtime.enqueue,
                        type_args: Seq::empty(),
                        args: seq![given(at_6, 2), given(at_6, 0)],
                    },
                )
                &&& makes(at_6, 4, InstKindView::Const(ConstView::Int(1)))
                &&& makes(
                    at_6,
                    5,
                    InstKindView::Binary {
                        op: BinaryOp::Add,
                        left: at_5.params[0],
                        right: given(at_6, 4),
                    },
                )
                &&& ends(
                    at_6,
                    TerminatorView::Jump(
                        TargetView { block: BlockId(5), args: seq![given(at_6, 5)] },
                    ),
                )
                &&& at_6.params.len() == 0
                &&& at_7.insts.len() == 2
                &&& only_does(at_7, 0, InstKindView::Clear { receiver: given(at_2, 0) })
                &&& makes(at_7, 1, InstKindView::Const(ConstView::Unit))
                &&& ends(at_7, TerminatorView::Return(given(at_7, 1)))
                &&& at_7.params.len() == 0
            }
            &&& (cancelled is None) ==> {
                let at_0 = f.block(BlockId(0));
                let at_1 = f.block(BlockId(1));
                let at_2 = f.block(BlockId(2));
                let at_3 = f.block(BlockId(3));
                let at_4 = f.block(BlockId(4));
                let at_5 = f.block(BlockId(5));
                let at_6 = f.block(BlockId(6));
                let at_7 = f.block(BlockId(7));
                &&& at_0.insts.len() == 3
                &&& makes(at_0, 0, InstKindView::DynValue { value: Value(0) })
                &&& makes(at_0, 1, InstKindView::GetField { object: given(at_0, 0), field: OWNER })
                &&& makes(at_0, 2, InstKindView::IsSome { value: given(at_0, 1) })
                &&& ends(
                    at_0,
                    TerminatorView::Branch {
                        condition: given(at_0, 2),
                        then: TargetView::to(BlockId(1)),
                        otherwise: TargetView::to(BlockId(2)),
                    },
                )
                &&& at_1.insts.len() == 5
                &&& makes(
                    at_1,
                    0,
                    InstKindView::GetField { object: given(at_0, 0), field: COMPLETION },
                )
                &&& makes(at_1, 1, InstKindView::Unwrap { value: given(at_1, 0) })
                &&& makes(at_1, 2, InstKindView::GetTag { value: given(at_1, 1) })
                &&& makes(at_1, 3, InstKindView::Const(ConstView::Int(1)))
                &&& makes(
                    at_1,
                    4,
                    InstKindView::Binary {
                        op: BinaryOp::Equal,
                        left: given(at_1, 2),
                        right: given(at_1, 3),
                    },
                )
                &&& ends(
                    at_1,
                    TerminatorView::Branch {
                        condition: given(at_1, 4),
                        then: TargetView::to(BlockId(3)),
                        otherwise: TargetView::to(BlockId(2)),
                    },
                )
                &&& at_1.params.len() == 0
                &&& at_2.insts.len() == 3
                &&& makes(
                    at_2,
                    0,
                    InstKindView::GetField { object: given(at_0, 0), field: WAITERS },
                )
                &&& makes(at_2, 1, InstKindView::Length { receiver: given(at_2, 0) })
                &&& makes(at_2, 2, InstKindView::Const(ConstView::Int(0)))
                &&& ends(
                    at_2,
                    TerminatorView::Jump(
                        TargetView { block: BlockId(5), args: seq![given(at_2, 2)] },
                    ),
                )
                &&& at_2.params.len() == 0
                &&& at_3.insts.len() == 1
                &&& makes(
                    at_3,
                    0,
                    InstKindView::GetPayload { value: given(at_1, 1), variant: 1, field: 0 },
                )
                &&& ends(at_3, TerminatorView::Jump(TargetView::to(BlockId(4))))
                &&& at_3.params.len() == 0
                &&& at_4.insts.len() == 8
                &&& makes(at_4, 0, InstKindView::Unwrap { value: given(at_0, 1) })
                &&& makes(at_4, 1, InstKindView::DynValue { value: given(at_4, 0) })
                &&& makes(
                    at_4,
                    2,
                    InstKindView::GetField { object: given(at_4, 1), field: SCOPE_FAILURES },
                )
                &&& only_does(
                    at_4,
                    3,
                    InstKindView::ListPush { receiver: given(at_4, 2), value: Value(0) },
                )
                &&& makes(at_4, 4, InstKindView::Const(ConstView::Str("cancelled"@)))
                &&& makes(at_4, 5, InstKindView::MakeError { message: given(at_4, 4) })
                &&& makes(at_4, 6, InstKindView::MakeDyn { interface: None, value: given(at_4, 5) })
                &&& makes(
                    at_4,
                    7,
                    InstKindView::Call {
                        callee: runtime.cancel_scope,
                        type_args: Seq::empty(),
                        args: seq![given(at_4, 0), given(at_4, 6)],
                    },
                )
                &&& ends(at_4, TerminatorView::Jump(TargetView::to(BlockId(2))))
                &&& at_4.params.len() == 0
                &&& at_5.insts.len() == 1
                &&& makes(
                    at_5,
                    0,
                    InstKindView::Binary {
                        op: BinaryOp::Equal,
                        left: at_5.params[0],
                        right: given(at_2, 1),
                    },
                )
                &&& ends(
                    at_5,
                    TerminatorView::Branch {
                        condition: given(at_5, 0),
                        then: TargetView::to(BlockId(7)),
                        otherwise: TargetView::to(BlockId(6)),
                    },
                )
                &&& at_5.params.len() == 1
                &&& at_6.insts.len() == 6
                &&& makes(
                    at_6,
                    0,
                    InstKindView::GetIndex { receiver: given(at_2, 0), index: at_5.params[0] },
                )
                &&& makes(at_6, 1, InstKindView::DynValue { value: given(at_6, 0) })
                &&& makes(
                    at_6,
                    2,
                    InstKindView::GetField { object: given(at_6, 1), field: SCHEDULER },
                )
                &&& makes(
                    at_6,
                    3,
                    InstKindView::Call {
                        callee: runtime.enqueue,
                        type_args: Seq::empty(),
                        args: seq![given(at_6, 2), given(at_6, 0)],
                    },
                )
                &&& makes(at_6, 4, InstKindView::Const(ConstView::Int(1)))
                &&& makes(
                    at_6,
                    5,
                    InstKindView::Binary {
                        op: BinaryOp::Add,
                        left: at_5.params[0],
                        right: given(at_6, 4),
                    },
                )
                &&& ends(
                    at_6,
                    TerminatorView::Jump(
                        TargetView { block: BlockId(5), args: seq![given(at_6, 5)] },
                    ),
                )
                &&& at_6.params.len() == 0
                &&& at_7.insts.len() == 2
                &&& only_does(at_7, 0, InstKindView::Clear { receiver: given(at_2, 0) })
                &&& makes(at_7, 1, InstKindView::Const(ConstView::Unit))
                &&& ends(at_7, TerminatorView::Return(given(at_7, 1)))
                &&& at_7.params.len() == 0
            }
        }),
{
    broadcast use writing;

    reveal(wake_code);
}

/// A task that completed, or that has a request already, is left alone. Any other keeps
/// the request. Where it was started, its scopes are cancelled and it is queued; where it
/// was not, it completes with the request as its error.
#[verifier::rlimit(60)]
pub proof fn a_task_is_cancelled_once(
    runtime: Runtime,
    span: Span,
)
    ensures
        ({
            let f = cancel_code(runtime, span);
            let at_0 = f.block(BlockId(0));
            let at_1 = f.block(BlockId(1));
            let at_2 = f.block(BlockId(2));
            let at_3 = f.block(BlockId(3));
            let at_4 = f.block(BlockId(4));
            let at_5 = f.block(BlockId(5));
            &&& at_0.insts.len() == 3
            &&& makes(at_0, 0, InstKindView::DynValue { value: Value(0) })
            &&& makes(at_0, 1, InstKindView::GetField { object: given(at_0, 0), field: COMPLETION })
            &&& makes(at_0, 2, InstKindView::IsSome { value: given(at_0, 1) })
            &&& ends(
                at_0,
                TerminatorView::Branch {
                    condition: given(at_0, 2),
                    then: TargetView::to(BlockId(2)),
                    otherwise: TargetView::to(BlockId(1)),
                },
            )
            &&& at_1.insts.len() == 2
            &&& makes(at_1, 0, InstKindView::GetField { object: given(at_0, 0), field: REQUEST })
            &&& makes(at_1, 1, InstKindView::IsSome { value: given(at_1, 0) })
            &&& ends(
                at_1,
                TerminatorView::Branch {
                    condition: given(at_1, 1),
                    then: TargetView::to(BlockId(2)),
                    otherwise: TargetView::to(BlockId(3)),
                },
            )
            &&& at_1.params.len() == 0
            &&& at_2.insts.len() == 1
            &&& makes(at_2, 0, InstKindView::Const(ConstView::Unit))
            &&& ends(at_2, TerminatorView::Return(given(at_2, 0)))
            &&& at_2.params.len() == 0
            &&& at_3.insts.len() == 3
            &&& makes(at_3, 0, InstKindView::MakeSome { value: Value(1) })
            &&& only_does(
                at_3,
                1,
                InstKindView::SetField {
                    object: given(at_0, 0),
                    field: REQUEST,
                    value: given(at_3, 0),
                },
            )
            &&& makes(at_3, 2, InstKindView::GetField { object: given(at_0, 0), field: STARTED })
            &&& ends(
                at_3,
                TerminatorView::Branch {
                    condition: given(at_3, 2),
                    then: TargetView::to(BlockId(4)),
                    otherwise: TargetView::to(BlockId(5)),
                },
            )
            &&& at_3.params.len() == 0
            &&& at_4.insts.len() == 3
            &&& makes(
                at_4,
                0,
                InstKindView::Call {
                    callee: runtime.cancel_children,
                    type_args: Seq::empty(),
                    args: seq![Value(0), Value(1)],
                },
            )
            &&& makes(at_4, 1, InstKindView::GetField { object: given(at_0, 0), field: SCHEDULER })
            &&& makes(
                at_4,
                2,
                InstKindView::Call {
                    callee: runtime.enqueue,
                    type_args: Seq::empty(),
                    args: seq![given(at_4, 1), Value(0)],
                },
            )
            &&& ends(at_4, TerminatorView::Jump(TargetView::to(BlockId(2))))
            &&& at_4.params.len() == 0
            &&& at_5.insts.len() == 3
            &&& makes(
                at_5,
                0,
                InstKindView::MakeEnum {
                    ty: erased_completion_view(),
                    variant: 1,
                    payload: seq![Value(1)],
                },
            )
            &&& makes(at_5, 1, InstKindView::MakeSome { value: given(at_5, 0) })
            &&& only_does(
                at_5,
                2,
                InstKindView::SetField {
                    object: given(at_0, 0),
                    field: COMPLETION,
                    value: given(at_5, 1),
                },
            )
            &&& ends(at_5, TerminatorView::Jump(TargetView::to(BlockId(2))))
            &&& at_5.params.len() == 0
        }),
{
    broadcast use writing;

    reveal(cancel_code);
}

/// Each scope of a task that is not shielded keeps the request and is cancelled, from the
/// active one outward.
#[verifier::rlimit(60)]
pub proof fn cancelling_reaches_every_scope_that_is_not_shielded(
    runtime: Runtime,
    span: Span,
)
    ensures
        ({
            let f = cancel_children_code(runtime, span);
            let at_0 = f.block(BlockId(0));
            let at_1 = f.block(BlockId(1));
            let at_2 = f.block(BlockId(2));
            let at_3 = f.block(BlockId(3));
            let at_4 = f.block(BlockId(4));
            let at_5 = f.block(BlockId(5));
            &&& at_0.insts.len() == 2
            &&& makes(at_0, 0, InstKindView::DynValue { value: Value(0) })
            &&& makes(
                at_0,
                1,
                InstKindView::GetField { object: given(at_0, 0), field: ACTIVE_SCOPE },
            )
            &&& ends(
                at_0,
                TerminatorView::Jump(TargetView { block: BlockId(1), args: seq![given(at_0, 1)] }),
            )
            &&& at_1.insts.len() == 1
            &&& makes(
                at_1,
                0,
                InstKindView::GetField { object: at_1.params[0], field: SCOPE_SHIELDED },
            )
            &&& ends(
                at_1,
                TerminatorView::Branch {
                    condition: given(at_1, 0),
                    then: TargetView::to(BlockId(5)),
                    otherwise: TargetView::to(BlockId(4)),
                },
            )
            &&& at_1.params.len() == 1
            &&& at_2.insts.len() == 1
            &&& makes(at_2, 0, InstKindView::Unwrap { value: given(at_5, 0) })
            &&& ends(
                at_2,
                TerminatorView::Jump(TargetView { block: BlockId(1), args: seq![given(at_2, 0)] }),
            )
            &&& at_2.params.len() == 0
            &&& at_3.insts.len() == 1
            &&& makes(at_3, 0, InstKindView::Const(ConstView::Unit))
            &&& ends(at_3, TerminatorView::Return(given(at_3, 0)))
            &&& at_3.params.len() == 0
            &&& at_4.insts.len() == 4
            &&& makes(at_4, 0, InstKindView::MakeSome { value: Value(1) })
            &&& only_does(
                at_4,
                1,
                InstKindView::SetField {
                    object: at_1.params[0],
                    field: SCOPE_REQUEST,
                    value: given(at_4, 0),
                },
            )
            &&& makes(at_4, 2, InstKindView::MakeDyn { interface: None, value: at_1.params[0] })
            &&& makes(
                at_4,
                3,
                InstKindView::Call {
                    callee: runtime.cancel_scope,
                    type_args: Seq::empty(),
                    args: seq![given(at_4, 2), Value(1)],
                },
            )
            &&& ends(at_4, TerminatorView::Jump(TargetView::to(BlockId(5))))
            &&& at_4.params.len() == 0
            &&& at_5.insts.len() == 2
            &&& makes(
                at_5,
                0,
                InstKindView::GetField { object: at_1.params[0], field: SCOPE_PARENT },
            )
            &&& makes(at_5, 1, InstKindView::IsSome { value: given(at_5, 0) })
            &&& ends(
                at_5,
                TerminatorView::Branch {
                    condition: given(at_5, 1),
                    then: TargetView::to(BlockId(2)),
                    otherwise: TargetView::to(BlockId(3)),
                },
            )
            &&& at_5.params.len() == 0
        }),
{
    broadcast use writing;

    reveal(cancel_children_code);
}

/// Each child of a scope that is cancelled is cancelled, from the first on.
#[verifier::rlimit(60)]
pub proof fn cancelling_a_scope_reaches_every_child(
    runtime: Runtime,
    span: Span,
)
    ensures
        ({
            let f = cancel_scope_code(runtime, span);
            let at_0 = f.block(BlockId(0));
            let at_1 = f.block(BlockId(1));
            let at_2 = f.block(BlockId(2));
            let at_3 = f.block(BlockId(3));
            &&& at_0.insts.len() == 4
            &&& makes(at_0, 0, InstKindView::DynValue { value: Value(0) })
            &&& makes(
                at_0,
                1,
                InstKindView::GetField { object: given(at_0, 0), field: SCOPE_CHILDREN },
            )
            &&& makes(at_0, 2, InstKindView::Length { receiver: given(at_0, 1) })
            &&& makes(at_0, 3, InstKindView::Const(ConstView::Int(0)))
            &&& ends(
                at_0,
                TerminatorView::Jump(TargetView { block: BlockId(1), args: seq![given(at_0, 3)] }),
            )
            &&& at_1.insts.len() == 1
            &&& makes(
                at_1,
                0,
                InstKindView::Binary {
                    op: BinaryOp::Equal,
                    left: at_1.params[0],
                    right: given(at_0, 2),
                },
            )
            &&& ends(
                at_1,
                TerminatorView::Branch {
                    condition: given(at_1, 0),
                    then: TargetView::to(BlockId(3)),
                    otherwise: TargetView::to(BlockId(2)),
                },
            )
            &&& at_1.params.len() == 1
            &&& at_2.insts.len() == 4
            &&& makes(
                at_2,
                0,
                InstKindView::GetIndex { receiver: given(at_0, 1), index: at_1.params[0] },
            )
            &&& makes(
                at_2,
                1,
                InstKindView::Call {
                    callee: runtime.cancel,
                    type_args: Seq::empty(),
                    args: seq![given(at_2, 0), Value(1)],
                },
            )
            &&& makes(at_2, 2, InstKindView::Const(ConstView::Int(1)))
            &&& makes(
                at_2,
                3,
                InstKindView::Binary {
                    op: BinaryOp::Add,
                    left: at_1.params[0],
                    right: given(at_2, 2),
                },
            )
            &&& ends(
                at_2,
                TerminatorView::Jump(TargetView { block: BlockId(1), args: seq![given(at_2, 3)] }),
            )
            &&& at_2.params.len() == 0
            &&& at_3.insts.len() == 1
            &&& makes(at_3, 0, InstKindView::Const(ConstView::Unit))
            &&& ends(at_3, TerminatorView::Return(given(at_3, 0)))
            &&& at_3.params.len() == 0
        }),
{
    broadcast use writing;

    reveal(cancel_scope_code);
}

/// What a scope waits for next is its first child that has no completion, and nothing
/// where each has one.
#[verifier::rlimit(60)]
pub proof fn the_next_child_is_the_first_that_is_not_complete(
    span: Span,
)
    ensures
        ({
            let f = next_child_code(span);
            let at_0 = f.block(BlockId(0));
            let at_1 = f.block(BlockId(1));
            let at_2 = f.block(BlockId(2));
            let at_3 = f.block(BlockId(3));
            let at_4 = f.block(BlockId(4));
            let at_5 = f.block(BlockId(5));
            &&& at_0.insts.len() == 4
            &&& makes(at_0, 0, InstKindView::DynValue { value: Value(0) })
            &&& makes(
                at_0,
                1,
                InstKindView::GetField { object: given(at_0, 0), field: SCOPE_CHILDREN },
            )
            &&& makes(at_0, 2, InstKindView::Length { receiver: given(at_0, 1) })
            &&& makes(at_0, 3, InstKindView::Const(ConstView::Int(0)))
            &&& ends(
                at_0,
                TerminatorView::Jump(TargetView { block: BlockId(1), args: seq![given(at_0, 3)] }),
            )
            &&& at_1.insts.len() == 1
            &&& makes(
                at_1,
                0,
                InstKindView::Binary {
                    op: BinaryOp::Equal,
                    left: at_1.params[0],
                    right: given(at_0, 2),
                },
            )
            &&& ends(
                at_1,
                TerminatorView::Branch {
                    condition: given(at_1, 0),
                    then: TargetView::to(BlockId(5)),
                    otherwise: TargetView::to(BlockId(2)),
                },
            )
            &&& at_1.params.len() == 1
            &&& at_2.insts.len() == 4
            &&& makes(
                at_2,
                0,
                InstKindView::GetIndex { receiver: given(at_0, 1), index: at_1.params[0] },
            )
            &&& makes(at_2, 1, InstKindView::DynValue { value: given(at_2, 0) })
            &&& makes(at_2, 2, InstKindView::GetField { object: given(at_2, 1), field: COMPLETION })
            &&& makes(at_2, 3, InstKindView::IsSome { value: given(at_2, 2) })
            &&& ends(
                at_2,
                TerminatorView::Branch {
                    condition: given(at_2, 3),
                    then: TargetView::to(BlockId(3)),
                    otherwise: TargetView::to(BlockId(4)),
                },
            )
            &&& at_2.params.len() == 0
            &&& at_3.insts.len() == 2
            &&& makes(at_3, 0, InstKindView::Const(ConstView::Int(1)))
            &&& makes(
                at_3,
                1,
                InstKindView::Binary {
                    op: BinaryOp::Add,
                    left: at_1.params[0],
                    right: given(at_3, 0),
                },
            )
            &&& ends(
                at_3,
                TerminatorView::Jump(TargetView { block: BlockId(1), args: seq![given(at_3, 1)] }),
            )
            &&& at_3.params.len() == 0
            &&& at_4.insts.len() == 1
            &&& makes(at_4, 0, InstKindView::MakeSome { value: given(at_2, 0) })
            &&& ends(at_4, TerminatorView::Return(given(at_4, 0)))
            &&& at_4.params.len() == 0
            &&& at_5.insts.len() == 1
            &&& makes(at_5, 0, InstKindView::Const(ConstView::Nil))
            &&& ends(at_5, TerminatorView::Return(given(at_5, 0)))
            &&& at_5.params.len() == 0
        }),
{
    broadcast use writing;

    reveal(next_child_code);
}

/// A task that would come to wait for itself panics. Any other is put last among what
/// waits for the awaited task, and records what it waits for.
#[verifier::rlimit(60)]
pub proof fn a_wait_is_recorded_with_both(
    span: Span,
)
    ensures
        ({
            let f = wait_code(span);
            let at_0 = f.block(BlockId(0));
            let at_1 = f.block(BlockId(1));
            let at_2 = f.block(BlockId(2));
            let at_3 = f.block(BlockId(3));
            let at_4 = f.block(BlockId(4));
            let at_5 = f.block(BlockId(5));
            &&& at_0.insts.len() == 1
            &&& makes(at_0, 0, InstKindView::DynValue { value: Value(0) })
            &&& ends(
                at_0,
                TerminatorView::Jump(TargetView { block: BlockId(1), args: seq![Value(1)] }),
            )
            &&& at_1.insts.len() == 2
            &&& makes(at_1, 0, InstKindView::DynValue { value: at_1.params[0] })
            &&& makes(
                at_1,
                1,
                InstKindView::Binary {
                    op: BinaryOp::Equal,
                    left: given(at_1, 0),
                    right: given(at_0, 0),
                },
            )
            &&& ends(
                at_1,
                TerminatorView::Branch {
                    condition: given(at_1, 1),
                    then: TargetView::to(BlockId(4)),
                    otherwise: TargetView::to(BlockId(2)),
                },
            )
            &&& at_1.params.len() == 1
            &&& at_2.insts.len() == 2
            &&& makes(at_2, 0, InstKindView::GetField { object: given(at_1, 0), field: WAITING })
            &&& makes(at_2, 1, InstKindView::IsSome { value: given(at_2, 0) })
            &&& ends(
                at_2,
                TerminatorView::Branch {
                    condition: given(at_2, 1),
                    then: TargetView::to(BlockId(3)),
                    otherwise: TargetView::to(BlockId(5)),
                },
            )
            &&& at_2.params.len() == 0
            &&& at_3.insts.len() == 1
            &&& makes(at_3, 0, InstKindView::Unwrap { value: given(at_2, 0) })
            &&& ends(
                at_3,
                TerminatorView::Jump(TargetView { block: BlockId(1), args: seq![given(at_3, 0)] }),
            )
            &&& at_3.params.len() == 0
            &&& at_4.insts.len() == 2
            &&& makes(at_4, 0, InstKindView::Const(ConstView::Str("cyclic task await"@)))
            &&& only_does(at_4, 1, InstKindView::Panic { message: given(at_4, 0) })
            &&& ends(at_4, TerminatorView::Trap(Trap::Unreachable))
            &&& at_4.params.len() == 0
            &&& at_5.insts.len() == 6
            &&& makes(at_5, 0, InstKindView::DynValue { value: Value(1) })
            &&& makes(at_5, 1, InstKindView::GetField { object: given(at_5, 0), field: WAITERS })
            &&& only_does(
                at_5,
                2,
                InstKindView::ListPush { receiver: given(at_5, 1), value: Value(0) },
            )
            &&& makes(at_5, 3, InstKindView::MakeSome { value: Value(1) })
            &&& only_does(
                at_5,
                4,
                InstKindView::SetField {
                    object: given(at_0, 0),
                    field: WAITING,
                    value: given(at_5, 3),
                },
            )
            &&& makes(at_5, 5, InstKindView::Const(ConstView::Unit))
            &&& ends(at_5, TerminatorView::Return(given(at_5, 5)))
            &&& at_5.params.len() == 0
        }),
{
    broadcast use writing;

    reveal(wait_code);
}

/// A scope ends with the error of the first recorded failure that nothing observed, and
/// with nothing where there is none.
#[verifier::rlimit(60)]
pub proof fn a_scope_fails_with_the_first_failure(
    span: Span,
)
    ensures
        ({
            let f = child_error_code(span);
            let at_0 = f.block(BlockId(0));
            let at_1 = f.block(BlockId(1));
            let at_2 = f.block(BlockId(2));
            let at_3 = f.block(BlockId(3));
            let at_4 = f.block(BlockId(4));
            let at_5 = f.block(BlockId(5));
            &&& at_0.insts.len() == 4
            &&& makes(at_0, 0, InstKindView::DynValue { value: Value(0) })
            &&& makes(
                at_0,
                1,
                InstKindView::GetField { object: given(at_0, 0), field: SCOPE_FAILURES },
            )
            &&& makes(at_0, 2, InstKindView::Length { receiver: given(at_0, 1) })
            &&& makes(at_0, 3, InstKindView::Const(ConstView::Int(0)))
            &&& ends(
                at_0,
                TerminatorView::Jump(TargetView { block: BlockId(1), args: seq![given(at_0, 3)] }),
            )
            &&& at_1.insts.len() == 1
            &&& makes(
                at_1,
                0,
                InstKindView::Binary {
                    op: BinaryOp::Equal,
                    left: at_1.params[0],
                    right: given(at_0, 2),
                },
            )
            &&& ends(
                at_1,
                TerminatorView::Branch {
                    condition: given(at_1, 0),
                    then: TargetView::to(BlockId(5)),
                    otherwise: TargetView::to(BlockId(2)),
                },
            )
            &&& at_1.params.len() == 1
            &&& at_2.insts.len() == 3
            &&& makes(
                at_2,
                0,
                InstKindView::GetIndex { receiver: given(at_0, 1), index: at_1.params[0] },
            )
            &&& makes(at_2, 1, InstKindView::DynValue { value: given(at_2, 0) })
            &&& makes(at_2, 2, InstKindView::GetField { object: given(at_2, 1), field: OBSERVED })
            &&& ends(
                at_2,
                TerminatorView::Branch {
                    condition: given(at_2, 2),
                    then: TargetView::to(BlockId(3)),
                    otherwise: TargetView::to(BlockId(4)),
                },
            )
            &&& at_2.params.len() == 0
            &&& at_3.insts.len() == 2
            &&& makes(at_3, 0, InstKindView::Const(ConstView::Int(1)))
            &&& makes(
                at_3,
                1,
                InstKindView::Binary {
                    op: BinaryOp::Add,
                    left: at_1.params[0],
                    right: given(at_3, 0),
                },
            )
            &&& ends(
                at_3,
                TerminatorView::Jump(TargetView { block: BlockId(1), args: seq![given(at_3, 1)] }),
            )
            &&& at_3.params.len() == 0
            &&& at_4.insts.len() == 4
            &&& makes(at_4, 0, InstKindView::GetField { object: given(at_2, 1), field: COMPLETION })
            &&& makes(at_4, 1, InstKindView::Unwrap { value: given(at_4, 0) })
            &&& makes(
                at_4,
                2,
                InstKindView::GetPayload { value: given(at_4, 1), variant: 1, field: 0 },
            )
            &&& makes(at_4, 3, InstKindView::MakeSome { value: given(at_4, 2) })
            &&& ends(at_4, TerminatorView::Return(given(at_4, 3)))
            &&& at_4.params.len() == 0
            &&& at_5.insts.len() == 1
            &&& makes(at_5, 0, InstKindView::Const(ConstView::Nil))
            &&& ends(at_5, TerminatorView::Return(given(at_5, 0)))
            &&& at_5.params.len() == 0
        }),
{
    broadcast use writing;

    reveal(child_error_code);
}

/// The scheduler takes the next task of the queue, marks it as not queued, and advances it
/// unless it completed already; where that completes it, what waits for it is woken. It
/// ends once the task it drives is complete, and panics where nothing is queued before.
#[verifier::rlimit(60)]
pub proof fn the_scheduler_runs_what_is_queued(
    runtime: Runtime,
    scheduler_ty: TyView,
    span: Span,
)
    ensures
        ({
            let f = drive_code(runtime, scheduler_ty, span);
            let at_0 = f.block(BlockId(0));
            let at_1 = f.block(BlockId(1));
            let at_2 = f.block(BlockId(2));
            let at_3 = f.block(BlockId(3));
            let at_4 = f.block(BlockId(4));
            let at_5 = f.block(BlockId(5));
            let at_6 = f.block(BlockId(6));
            let at_7 = f.block(BlockId(7));
            let at_8 = f.block(BlockId(8));
            let at_9 = f.block(BlockId(9));
            &&& at_0.insts.len() == 0
            &&& ends(at_0, TerminatorView::Jump(TargetView::to(BlockId(1))))
            &&& at_1.insts.len() == 3
            &&& makes(at_1, 0, InstKindView::DynValue { value: Value(1) })
            &&& makes(at_1, 1, InstKindView::GetField { object: given(at_1, 0), field: COMPLETION })
            &&& makes(at_1, 2, InstKindView::IsSome { value: given(at_1, 1) })
            &&& ends(
                at_1,
                TerminatorView::Branch {
                    condition: given(at_1, 2),
                    then: TargetView::to(BlockId(9)),
                    otherwise: TargetView::to(BlockId(2)),
                },
            )
            &&& at_1.params.len() == 0
            &&& at_2.insts.len() == 5
            &&& makes(at_2, 0, InstKindView::DynValue { value: Value(0) })
            &&& makes(at_2, 1, InstKindView::GetField { object: given(at_2, 0), field: QUEUE })
            &&& makes(at_2, 2, InstKindView::GetField { object: given(at_2, 0), field: HEAD })
            &&& makes(at_2, 3, InstKindView::Length { receiver: given(at_2, 1) })
            &&& makes(
                at_2,
                4,
                InstKindView::Binary {
                    op: BinaryOp::Equal,
                    left: given(at_2, 2),
                    right: given(at_2, 3),
                },
            )
            &&& ends(
                at_2,
                TerminatorView::Branch {
                    condition: given(at_2, 4),
                    then: TargetView::to(BlockId(3)),
                    otherwise: TargetView::to(BlockId(4)),
                },
            )
            &&& at_2.params.len() == 0
            &&& at_3.insts.len() == 2
            &&& makes(at_3, 0, InstKindView::Const(ConstView::Str("no runnable task"@)))
            &&& only_does(at_3, 1, InstKindView::Panic { message: given(at_3, 0) })
            &&& ends(at_3, TerminatorView::Trap(Trap::Unreachable))
            &&& at_3.params.len() == 0
            &&& at_4.insts.len() == 5
            &&& makes(
                at_4,
                0,
                InstKindView::GetIndex { receiver: given(at_2, 1), index: given(at_2, 2) },
            )
            &&& makes(at_4, 1, InstKindView::Const(ConstView::Int(1)))
            &&& makes(
                at_4,
                2,
                InstKindView::Binary {
                    op: BinaryOp::Add,
                    left: given(at_2, 2),
                    right: given(at_4, 1),
                },
            )
            &&& only_does(
                at_4,
                3,
                InstKindView::SetField {
                    object: given(at_2, 0),
                    field: HEAD,
                    value: given(at_4, 2),
                },
            )
            &&& makes(
                at_4,
                4,
                InstKindView::Binary {
                    op: BinaryOp::Equal,
                    left: given(at_4, 2),
                    right: given(at_2, 3),
                },
            )
            &&& ends(
                at_4,
                TerminatorView::Branch {
                    condition: given(at_4, 4),
                    then: TargetView::to(BlockId(5)),
                    otherwise: TargetView::to(BlockId(6)),
                },
            )
            &&& at_4.params.len() == 0
            &&& at_5.insts.len() == 3
            &&& only_does(at_5, 0, InstKindView::Clear { receiver: given(at_2, 1) })
            &&& makes(at_5, 1, InstKindView::Const(ConstView::Int(0)))
            &&& only_does(
                at_5,
                2,
                InstKindView::SetField {
                    object: given(at_2, 0),
                    field: HEAD,
                    value: given(at_5, 1),
                },
            )
            &&& ends(at_5, TerminatorView::Jump(TargetView::to(BlockId(6))))
            &&& at_5.params.len() == 0
            &&& at_6.insts.len() == 5
            &&& makes(at_6, 0, InstKindView::DynValue { value: given(at_4, 0) })
            &&& makes(at_6, 1, InstKindView::Const(ConstView::Bool(false)))
            &&& only_does(
                at_6,
                2,
                InstKindView::SetField {
                    object: given(at_6, 0),
                    field: QUEUED,
                    value: given(at_6, 1),
                },
            )
            &&& makes(at_6, 3, InstKindView::GetField { object: given(at_6, 0), field: COMPLETION })
            &&& makes(at_6, 4, InstKindView::IsSome { value: given(at_6, 3) })
            &&& ends(
                at_6,
                TerminatorView::Branch {
                    condition: given(at_6, 4),
                    then: TargetView::to(BlockId(1)),
                    otherwise: TargetView::to(BlockId(7)),
                },
            )
            &&& at_6.params.len() == 0
            &&& at_7.insts.len() == 2
            &&& makes(at_7, 0, InstKindView::GetField { object: given(at_6, 0), field: POLL })
            &&& makes(
                at_7,
                1,
                InstKindView::CallIndirect { callee: given(at_7, 0), args: Seq::empty() },
            )
            &&& ends(
                at_7,
                TerminatorView::Branch {
                    condition: given(at_7, 1),
                    then: TargetView::to(BlockId(8)),
                    otherwise: TargetView::to(BlockId(1)),
                },
            )
            &&& at_7.params.len() == 0
            &&& at_8.insts.len() == 1
            &&& makes(
                at_8,
                0,
                InstKindView::Call {
                    callee: runtime.wake,
                    type_args: Seq::empty(),
                    args: seq![given(at_4, 0)],
                },
            )
            &&& ends(at_8, TerminatorView::Jump(TargetView::to(BlockId(1))))
            &&& at_8.params.len() == 0
            &&& at_9.insts.len() == 1
            &&& makes(at_9, 0, InstKindView::Const(ConstView::Unit))
            &&& ends(at_9, TerminatorView::Return(given(at_9, 0)))
            &&& at_9.params.len() == 0
        }),
{
    broadcast use writing;

    reveal(drive_code);
}

/// An opened scope becomes the active one, with the one active before as its parent and
/// no children. It takes over what was requested of that one and whether it is shielded,
/// unless it cleans up: then nothing is requested of it, and it is shielded. The implicit
/// scope is there already.
#[verifier::rlimit(60)]
pub proof fn an_opened_scope_is_the_active_one(
    b: BuilderView,
    me: Value,
    kind: ScopeKind,
    post: BlockId,
)
    requires
        b.current.0 < b.function.blocks.len(),
        b.function.blocks.len() + 0 <= id_limit(),
        b.function.values.len() + 7 <= id_limit(),
        post.0 < b.function.blocks.len(),
    ensures
        ({
            let f = open_code(b, me, kind, post).function;
            let base = b.function.blocks.len();
            let before = b.function.block(b.current).insts.len() as int;
            &&& ((kind is Implicit)) ==> {
                let here = f.block(b.current);
                &&& here.insts.len() == before + 1
                &&& here.insts.take(before) == b.function.block(b.current).insts
                &&& here.params == b.function.block(b.current).params
                &&& makes(
                    here,
                    before + 0,
                    InstKindView::GetField { object: me, field: ROOT_SCOPE },
                )
                &&& ends(
                    here,
                    TerminatorView::Jump(
                        TargetView { block: post, args: seq![given(here, before + 0)] },
                    ),
                )
            }
            &&& ((!(kind is Implicit)) && (kind is Cleanup)) ==> {
                let here = f.block(b.current);
                &&& here.insts.len() == before + 8
                &&& here.insts.take(before) == b.function.block(b.current).insts
                &&& here.params == b.function.block(b.current).params
                &&& makes(
                    here,
                    before + 0,
                    InstKindView::GetField { object: me, field: ACTIVE_SCOPE },
                )
                &&& makes(here, before + 1, InstKindView::Const(ConstView::Nil))
                &&& makes(here, before + 2, InstKindView::Const(ConstView::Bool(true)))
                &&& makes(
                    here,
                    before + 3,
                    InstKindView::MakeSome { value: given(here, before + 0) },
                )
                &&& makes(
                    here,
                    before + 4,
                    InstKindView::MakeList { element: TyView::Dynamic, values: Seq::empty() },
                )
                &&& makes(
                    here,
                    before + 5,
                    InstKindView::MakeList { element: TyView::Dynamic, values: Seq::empty() },
                )
                &&& makes(
                    here,
                    before + 6,
                    InstKindView::MakeStruct {
                        ty: scope_type_view(),
                        fields: seq![
                            given(here, before + 4),
                            given(here, before + 5),
                            given(here, before + 1),
                            given(here, before + 3),
                            given(here, before + 2),
                        ],
                        allocation: Allocation::Managed,
                    },
                )
                &&& only_does(
                    here,
                    before + 7,
                    InstKindView::SetField {
                        object: me,
                        field: ACTIVE_SCOPE,
                        value: given(here, before + 6),
                    },
                )
                &&& ends(
                    here,
                    TerminatorView::Jump(
                        TargetView { block: post, args: seq![given(here, before + 6)] },
                    ),
                )
            }
            &&& ((!(kind is Implicit)) && (!(kind is Cleanup))) ==> {
                let here = f.block(b.current);
                &&& here.insts.len() == before + 8
                &&& here.insts.take(before) == b.function.block(b.current).insts
                &&& here.params == b.function.block(b.current).params
                &&& makes(
                    here,
                    before + 0,
                    InstKindView::GetField { object: me, field: ACTIVE_SCOPE },
                )
                &&& makes(
                    here,
                    before + 1,
                    InstKindView::GetField { object: given(here, before + 0), field: SCOPE_REQUEST },
                )
                &&& makes(
                    here,
                    before + 2,
                    InstKindView::GetField {
                        object: given(here, before + 0),
                        field: SCOPE_SHIELDED,
                    },
                )
                &&& makes(
                    here,
                    before + 3,
                    InstKindView::MakeSome { value: given(here, before + 0) },
                )
                &&& makes(
                    here,
                    before + 4,
                    InstKindView::MakeList { element: TyView::Dynamic, values: Seq::empty() },
                )
                &&& makes(
                    here,
                    before + 5,
                    InstKindView::MakeList { element: TyView::Dynamic, values: Seq::empty() },
                )
                &&& makes(
                    here,
                    before + 6,
                    InstKindView::MakeStruct {
                        ty: scope_type_view(),
                        fields: seq![
                            given(here, before + 4),
                            given(here, before + 5),
                            given(here, before + 1),
                            given(here, before + 3),
                            given(here, before + 2),
                        ],
                        allocation: Allocation::Managed,
                    },
                )
                &&& only_does(
                    here,
                    before + 7,
                    InstKindView::SetField {
                        object: me,
                        field: ACTIVE_SCOPE,
                        value: given(here, before + 6),
                    },
                )
                &&& ends(
                    here,
                    TerminatorView::Jump(
                        TargetView { block: post, args: seq![given(here, before + 6)] },
                    ),
                )
            }
            &&& forall|id: BlockId|
                id.0 < base && id != b.current ==> #[trigger] f.block(id) == b.function.block(id)
        }),
{
    broadcast use writing;

    what_is_written(b);
}

/// Closing a scope makes its parent, where it has one, the active one again.
#[verifier::rlimit(60)]
pub proof fn a_closed_scope_gives_way_to_its_parent(
    b: BuilderView,
    me: Value,
    scope: Value,
    post: BlockId,
)
    requires
        b.current.0 < b.function.blocks.len(),
        b.function.blocks.len() + 1 <= id_limit(),
        b.function.values.len() + 3 <= id_limit(),
        post.0 < b.function.blocks.len(),
    ensures
        ({
            let f = close_code(b, me, scope, post).function;
            let base = b.function.blocks.len();
            let before = b.function.block(b.current).insts.len() as int;
            let here = f.block(b.current);
            let at_0 = f.block(BlockId((base + 0) as u32));
            &&& here.insts.len() == before + 2
            &&& here.insts.take(before) == b.function.block(b.current).insts
            &&& here.params == b.function.block(b.current).params
            &&& makes(
                here,
                before + 0,
                InstKindView::GetField { object: scope, field: SCOPE_PARENT },
            )
            &&& makes(here, before + 1, InstKindView::IsSome { value: given(here, before + 0) })
            &&& ends(
                here,
                TerminatorView::Branch {
                    condition: given(here, before + 1),
                    then: TargetView::to(BlockId((base + 0) as u32)),
                    otherwise: TargetView::to(post),
                },
            )
            &&& at_0.insts.len() == 2
            &&& makes(at_0, 0, InstKindView::Unwrap { value: given(here, before + 0) })
            &&& only_does(
                at_0,
                1,
                InstKindView::SetField { object: me, field: ACTIVE_SCOPE, value: given(at_0, 0) },
            )
            &&& ends(at_0, TerminatorView::Jump(TargetView::to(post)))
            &&& at_0.params.len() == 0
            &&& forall|id: BlockId|
                id.0 < base && id != b.current ==> #[trigger] f.block(id) == b.function.block(id)
        }),
{
    broadcast use writing;

    what_is_written(b);
}

/// Cancelling a scope keeps the reason in it as its request, and hands both to what
/// cancels scopes.
#[verifier::rlimit(60)]
pub proof fn a_scope_is_cancelled_with_a_reason(
    b: BuilderView,
    runtime: Runtime,
    scope: Value,
    error: Value,
)
    requires
        b.current.0 < b.function.blocks.len(),
        b.function.blocks.len() + 0 <= id_limit(),
        b.function.values.len() + 3 <= id_limit(),
    ensures
        ({
            let f = crate::tasks::scopes::cancel_code(b, runtime, scope, error).function;
            let base = b.function.blocks.len();
            let before = b.function.block(b.current).insts.len() as int;
            let here = f.block(b.current);
            &&& here.insts.len() == before + 4
            &&& here.insts.take(before) == b.function.block(b.current).insts
            &&& here.params == b.function.block(b.current).params
            &&& makes(here, before + 0, InstKindView::MakeSome { value: error })
            &&& only_does(
                here,
                before + 1,
                InstKindView::SetField {
                    object: scope,
                    field: SCOPE_REQUEST,
                    value: given(here, before + 0),
                },
            )
            &&& makes(here, before + 2, InstKindView::MakeDyn { interface: None, value: scope })
            &&& makes(
                here,
                before + 3,
                InstKindView::Call {
                    callee: runtime.cancel_scope,
                    type_args: Seq::empty(),
                    args: seq![given(here, before + 2), error],
                },
            )
            &&& forall|id: BlockId|
                id.0 < base && id != b.current ==> #[trigger] f.block(id) == b.function.block(id)
        }),
{
    broadcast use writing;

    what_is_written(b);
}

/// A task that was started or completed cannot be spawned. Any other is started while the
/// scope it is spawned in is the active one.
#[verifier::rlimit(60)]
pub proof fn a_spawned_task_is_started_in_its_scope(
    b: BuilderView,
    runtime: Runtime,
    me: Value,
    scope: Value,
    task: Value,
    post: BlockId,
)
    requires
        b.current.0 < b.function.blocks.len(),
        b.function.blocks.len() + 3 <= id_limit(),
        b.function.values.len() + 8 <= id_limit(),
        post.0 < b.function.blocks.len(),
    ensures
        ({
            let f = spawn_code(b, runtime, me, scope, task, post).function;
            let base = b.function.blocks.len();
            let before = b.function.block(b.current).insts.len() as int;
            let here = f.block(b.current);
            let at_0 = f.block(BlockId((base + 0) as u32));
            let at_1 = f.block(BlockId((base + 1) as u32));
            let at_2 = f.block(BlockId((base + 2) as u32));
            &&& here.insts.len() == before + 3
            &&& here.insts.take(before) == b.function.block(b.current).insts
            &&& here.params == b.function.block(b.current).params
            &&& makes(here, before + 0, InstKindView::GetField { object: task, field: STARTED })
            &&& makes(here, before + 1, InstKindView::GetField { object: task, field: COMPLETION })
            &&& makes(here, before + 2, InstKindView::IsSome { value: given(here, before + 1) })
            &&& ends(
                here,
                TerminatorView::Branch {
                    condition: given(here, before + 0),
                    then: TargetView::to(BlockId((base + 1) as u32)),
                    otherwise: TargetView::to(BlockId((base + 0) as u32)),
                },
            )
            &&& at_0.insts.len() == 0
            &&& ends(
                at_0,
                TerminatorView::Branch {
                    condition: given(here, before + 2),
                    then: TargetView::to(BlockId((base + 1) as u32)),
                    otherwise: TargetView::to(BlockId((base + 2) as u32)),
                },
            )
            &&& at_0.params.len() == 0
            &&& at_1.insts.len() == 2
            &&& makes(
                at_1,
                0,
                InstKindView::Const(ConstView::Str("spawn requires an unstarted task"@)),
            )
            &&& only_does(at_1, 1, InstKindView::Panic { message: given(at_1, 0) })
            &&& ends(at_1, TerminatorView::Trap(Trap::Unreachable))
            &&& at_1.params.len() == 0
            &&& at_2.insts.len() == 6
            &&& makes(at_2, 0, InstKindView::GetField { object: me, field: ACTIVE_SCOPE })
            &&& only_does(
                at_2,
                1,
                InstKindView::SetField { object: me, field: ACTIVE_SCOPE, value: scope },
            )
            &&& makes(at_2, 2, InstKindView::MakeDyn { interface: None, value: me })
            &&& makes(at_2, 3, InstKindView::MakeDyn { interface: None, value: task })
            &&& makes(
                at_2,
                4,
                InstKindView::Call {
                    callee: runtime.start,
                    type_args: Seq::empty(),
                    args: seq![given(at_2, 2), given(at_2, 3)],
                },
            )
            &&& only_does(
                at_2,
                5,
                InstKindView::SetField { object: me, field: ACTIVE_SCOPE, value: given(at_2, 0) },
            )
            &&& ends(at_2, TerminatorView::Jump(TargetView { block: post, args: seq![task] }))
            &&& at_2.params.len() == 0
            &&& forall|id: BlockId|
                id.0 < base && id != b.current ==> #[trigger] f.block(id) == b.function.block(id)
        }),
{
    broadcast use writing;

    what_is_written(b);
}

/// A join delivers a request that is due by cancelling the scope with it. It waits for
/// the next child that is not complete, and where there is none goes on: with nothing
/// where an error already propagates, with the request where there was one, and
/// otherwise with the error the children left.
#[verifier::rlimit(60)]
pub proof fn a_join_waits_for_every_child(
    b: BuilderView,
    runtime: Runtime,
    frame: Value,
    me: Value,
    scope: Value,
    propagating: bool,
    cancelled: Option<TypeId>,
    state: u64,
    post: BlockId,
)
    requires
        b.current.0 < b.function.blocks.len(),
        b.function.blocks.len() + 8 <= id_limit(),
        b.function.values.len() + 24 <= id_limit(),
        post.0 < b.function.blocks.len(),
    ensures
        ({
            let f = join_code(
                b,
                runtime,
                frame,
                me,
                scope,
                false,
                propagating,
                cancelled,
                state,
                post,
            ).0.function;
            let base = b.function.blocks.len();
            let before = b.function.block(b.current).insts.len() as int;
            &&& ((propagating)) ==> {
                let here = f.block(b.current);
                let at_0 = f.block(BlockId((base + 0) as u32));
                let at_1 = f.block(BlockId((base + 1) as u32));
                let at_2 = f.block(BlockId((base + 2) as u32));
                let at_3 = f.block(BlockId((base + 3) as u32));
                let at_4 = f.block(BlockId((base + 4) as u32));
                let at_5 = f.block(BlockId((base + 5) as u32));
                &&& here.insts.len() == before + 1
                &&& here.insts.take(before) == b.function.block(b.current).insts
                &&& here.params == b.function.block(b.current).params
                &&& makes(here, before + 0, InstKindView::Const(ConstView::Nil))
                &&& ends(
                    here,
                    TerminatorView::Jump(
                        TargetView {
                            block: BlockId((base + 0) as u32),
                            args: seq![given(here, before + 0)],
                        },
                    ),
                )
                &&& at_0.insts.len() == 5
                &&& makes(at_0, 0, InstKindView::GetField { object: me, field: REQUEST })
                &&& makes(at_0, 1, InstKindView::GetField { object: me, field: DELIVERED })
                &&& makes(at_0, 2, InstKindView::IsSome { value: given(at_0, 0) })
                &&& makes(
                    at_0,
                    3,
                    InstKindView::Unary { op: UnaryOp::Not, operand: given(at_0, 1) },
                )
                &&& makes(
                    at_0,
                    4,
                    InstKindView::Binary {
                        op: BinaryOp::BitAnd,
                        left: given(at_0, 2),
                        right: given(at_0, 3),
                    },
                )
                &&& ends(
                    at_0,
                    TerminatorView::Branch {
                        condition: given(at_0, 4),
                        then: TargetView::to(BlockId((base + 2) as u32)),
                        otherwise: TargetView::to(BlockId((base + 1) as u32)),
                    },
                )
                &&& at_0.params.len() == 1
                &&& at_1.insts.len() == 3
                &&& makes(at_1, 0, InstKindView::MakeDyn { interface: None, value: scope })
                &&& makes(
                    at_1,
                    1,
                    InstKindView::Call {
                        callee: runtime.next_child,
                        type_args: Seq::empty(),
                        args: seq![given(at_1, 0)],
                    },
                )
                &&& makes(at_1, 2, InstKindView::IsSome { value: given(at_1, 1) })
                &&& ends(
                    at_1,
                    TerminatorView::Branch {
                        condition: given(at_1, 2),
                        then: TargetView::to(BlockId((base + 3) as u32)),
                        otherwise: TargetView::to(BlockId((base + 4) as u32)),
                    },
                )
                &&& at_1.params.len() == 0
                &&& at_2.insts.len() == 7
                &&& makes(at_2, 0, InstKindView::Const(ConstView::Bool(true)))
                &&& only_does(
                    at_2,
                    1,
                    InstKindView::SetField { object: me, field: DELIVERED, value: given(at_2, 0) },
                )
                &&& makes(at_2, 2, InstKindView::Unwrap { value: given(at_0, 0) })
                &&& makes(at_2, 3, InstKindView::MakeSome { value: given(at_2, 2) })
                &&& only_does(
                    at_2,
                    4,
                    InstKindView::SetField {
                        object: scope,
                        field: SCOPE_REQUEST,
                        value: given(at_2, 3),
                    },
                )
                &&& makes(at_2, 5, InstKindView::MakeDyn { interface: None, value: scope })
                &&& makes(
                    at_2,
                    6,
                    InstKindView::Call {
                        callee: runtime.cancel_scope,
                        type_args: Seq::empty(),
                        args: seq![given(at_2, 5), given(at_2, 2)],
                    },
                )
                &&& ends(
                    at_2,
                    TerminatorView::Jump(
                        TargetView { block: BlockId((base + 0) as u32), args: seq![given(at_0, 0)] },
                    ),
                )
                &&& at_2.params.len() == 0
                &&& at_3.insts.len() == 6
                &&& makes(at_3, 0, InstKindView::Unwrap { value: given(at_1, 1) })
                &&& makes(at_3, 1, InstKindView::MakeDyn { interface: None, value: me })
                &&& makes(
                    at_3,
                    2,
                    InstKindView::Call {
                        callee: runtime.wait,
                        type_args: Seq::empty(),
                        args: seq![given(at_3, 1), given(at_3, 0)],
                    },
                )
                &&& makes(at_3, 3, InstKindView::Const(ConstView::Int(state)))
                &&& only_does(
                    at_3,
                    4,
                    InstKindView::SetField { object: frame, field: STATE, value: given(at_3, 3) },
                )
                &&& makes(at_3, 5, InstKindView::Const(ConstView::Bool(false)))
                &&& ends(at_3, TerminatorView::Return(given(at_3, 5)))
                &&& at_3.params.len() == 0
                &&& at_4.insts.len() == 1
                &&& makes(at_4, 0, InstKindView::Const(ConstView::Nil))
                &&& ends(
                    at_4,
                    TerminatorView::Jump(TargetView { block: post, args: seq![given(at_4, 0)] }),
                )
                &&& at_4.params.len() == 0
                &&& at_5.insts.len() == 2
                &&& makes(at_5, 0, InstKindView::Const(ConstView::Nil))
                &&& only_does(
                    at_5,
                    1,
                    InstKindView::SetField { object: me, field: WAITING, value: given(at_5, 0) },
                )
                &&& ends(
                    at_5,
                    TerminatorView::Jump(
                        TargetView { block: BlockId((base + 0) as u32), args: seq![at_0.params[0]] },
                    ),
                )
                &&& at_5.params.len() == 0
                &&& join_code(
                    b,
                    runtime,
                    frame,
                    me,
                    scope,
                    false,
                    propagating,
                    cancelled,
                    state,
                    post,
                ).1 == BlockId((base + 5) as u32)
            }
            &&& ((!(propagating))) ==> {
                let here = f.block(b.current);
                let at_0 = f.block(BlockId((base + 0) as u32));
                let at_1 = f.block(BlockId((base + 1) as u32));
                let at_2 = f.block(BlockId((base + 2) as u32));
                let at_3 = f.block(BlockId((base + 3) as u32));
                let at_4 = f.block(BlockId((base + 4) as u32));
                let at_5 = f.block(BlockId((base + 5) as u32));
                let at_6 = f.block(BlockId((base + 6) as u32));
                let at_7 = f.block(BlockId((base + 7) as u32));
                &&& here.insts.len() == before + 1
                &&& here.insts.take(before) == b.function.block(b.current).insts
                &&& here.params == b.function.block(b.current).params
                &&& makes(here, before + 0, InstKindView::Const(ConstView::Nil))
                &&& ends(
                    here,
                    TerminatorView::Jump(
                        TargetView {
                            block: BlockId((base + 0) as u32),
                            args: seq![given(here, before + 0)],
                        },
                    ),
                )
                &&& at_0.insts.len() == 5
                &&& makes(at_0, 0, InstKindView::GetField { object: me, field: REQUEST })
                &&& makes(at_0, 1, InstKindView::GetField { object: me, field: DELIVERED })
                &&& makes(at_0, 2, InstKindView::IsSome { value: given(at_0, 0) })
                &&& makes(
                    at_0,
                    3,
                    InstKindView::Unary { op: UnaryOp::Not, operand: given(at_0, 1) },
                )
                &&& makes(
                    at_0,
                    4,
                    InstKindView::Binary {
                        op: BinaryOp::BitAnd,
                        left: given(at_0, 2),
                        right: given(at_0, 3),
                    },
                )
                &&& ends(
                    at_0,
                    TerminatorView::Branch {
                        condition: given(at_0, 4),
                        then: TargetView::to(BlockId((base + 2) as u32)),
                        otherwise: TargetView::to(BlockId((base + 1) as u32)),
                    },
                )
                &&& at_0.params.len() == 1
                &&& at_1.insts.len() == 3
                &&& makes(at_1, 0, InstKindView::MakeDyn { interface: None, value: scope })
                &&& makes(
                    at_1,
                    1,
                    InstKindView::Call {
                        callee: runtime.next_child,
                        type_args: Seq::empty(),
                        args: seq![given(at_1, 0)],
                    },
                )
                &&& makes(at_1, 2, InstKindView::IsSome { value: given(at_1, 1) })
                &&& ends(
                    at_1,
                    TerminatorView::Branch {
                        condition: given(at_1, 2),
                        then: TargetView::to(BlockId((base + 3) as u32)),
                        otherwise: TargetView::to(BlockId((base + 4) as u32)),
                    },
                )
                &&& at_1.params.len() == 0
                &&& at_2.insts.len() == 7
                &&& makes(at_2, 0, InstKindView::Const(ConstView::Bool(true)))
                &&& only_does(
                    at_2,
                    1,
                    InstKindView::SetField { object: me, field: DELIVERED, value: given(at_2, 0) },
                )
                &&& makes(at_2, 2, InstKindView::Unwrap { value: given(at_0, 0) })
                &&& makes(at_2, 3, InstKindView::MakeSome { value: given(at_2, 2) })
                &&& only_does(
                    at_2,
                    4,
                    InstKindView::SetField {
                        object: scope,
                        field: SCOPE_REQUEST,
                        value: given(at_2, 3),
                    },
                )
                &&& makes(at_2, 5, InstKindView::MakeDyn { interface: None, value: scope })
                &&& makes(
                    at_2,
                    6,
                    InstKindView::Call {
                        callee: runtime.cancel_scope,
                        type_args: Seq::empty(),
                        args: seq![given(at_2, 5), given(at_2, 2)],
                    },
                )
                &&& ends(
                    at_2,
                    TerminatorView::Jump(
                        TargetView { block: BlockId((base + 0) as u32), args: seq![given(at_0, 0)] },
                    ),
                )
                &&& at_2.params.len() == 0
                &&& at_3.insts.len() == 6
                &&& makes(at_3, 0, InstKindView::Unwrap { value: given(at_1, 1) })
                &&& makes(at_3, 1, InstKindView::MakeDyn { interface: None, value: me })
                &&& makes(
                    at_3,
                    2,
                    InstKindView::Call {
                        callee: runtime.wait,
                        type_args: Seq::empty(),
                        args: seq![given(at_3, 1), given(at_3, 0)],
                    },
                )
                &&& makes(at_3, 3, InstKindView::Const(ConstView::Int(state)))
                &&& only_does(
                    at_3,
                    4,
                    InstKindView::SetField { object: frame, field: STATE, value: given(at_3, 3) },
                )
                &&& makes(at_3, 5, InstKindView::Const(ConstView::Bool(false)))
                &&& ends(at_3, TerminatorView::Return(given(at_3, 5)))
                &&& at_3.params.len() == 0
                &&& at_4.insts.len() == 1
                &&& makes(at_4, 0, InstKindView::IsSome { value: at_0.params[0] })
                &&& ends(
                    at_4,
                    TerminatorView::Branch {
                        condition: given(at_4, 0),
                        then: TargetView::to(BlockId((base + 6) as u32)),
                        otherwise: TargetView::to(BlockId((base + 7) as u32)),
                    },
                )
                &&& at_4.params.len() == 0
                &&& at_5.insts.len() == 2
                &&& makes(at_5, 0, InstKindView::Const(ConstView::Nil))
                &&& only_does(
                    at_5,
                    1,
                    InstKindView::SetField { object: me, field: WAITING, value: given(at_5, 0) },
                )
                &&& ends(
                    at_5,
                    TerminatorView::Jump(
                        TargetView { block: BlockId((base + 0) as u32), args: seq![at_0.params[0]] },
                    ),
                )
                &&& at_5.params.len() == 0
                &&& at_6.insts.len() == 0
                &&& ends(
                    at_6,
                    TerminatorView::Jump(TargetView { block: post, args: seq![at_0.params[0]] }),
                )
                &&& at_6.params.len() == 0
                &&& at_7.insts.len() == 2
                &&& makes(at_7, 0, InstKindView::MakeDyn { interface: None, value: scope })
                &&& makes(
                    at_7,
                    1,
                    InstKindView::Call {
                        callee: runtime.child_error,
                        type_args: Seq::empty(),
                        args: seq![given(at_7, 0)],
                    },
                )
                &&& ends(
                    at_7,
                    TerminatorView::Jump(TargetView { block: post, args: seq![given(at_7, 1)] }),
                )
                &&& at_7.params.len() == 0
                &&& join_code(
                    b,
                    runtime,
                    frame,
                    me,
                    scope,
                    false,
                    propagating,
                    cancelled,
                    state,
                    post,
                ).1 == BlockId((base + 5) as u32)
            }
            &&& forall|id: BlockId|
                id.0 < base && id != b.current ==> #[trigger] f.block(id) == b.function.block(id)
        }),
{
    broadcast use writing;

    what_is_written(b);
}

/// A scope that is left early is cancelled first, and then joined as any other.
pub proof fn a_scope_left_early_is_cancelled_first(
    b: BuilderView,
    runtime: Runtime,
    frame: Value,
    me: Value,
    scope: Value,
    propagating: bool,
    cancelled: Option<TypeId>,
    state: u64,
    post: BlockId,
)
    ensures
        ({
            let (reasoned, reason) = cancellation_code(b, cancelled);
            let asked = crate::tasks::scopes::cancel_code(reasoned, runtime, scope, reason);
            join_code(b, runtime, frame, me, scope, true, propagating, cancelled, state, post)
                == join_code(
                asked,
                runtime,
                frame,
                me,
                scope,
                false,
                propagating,
                cancelled,
                state,
                post,
            )
        }),
{
}

/// The program builds its first task, gives it a scheduler of its own, queues it, drives
/// the scheduler, and gives back what the task completed with.
#[verifier::rlimit(60)]
pub proof fn the_first_task_is_driven_to_its_end(
    b: BuilderView,
    entry: FuncId,
    args: Seq<Value>,
    task_ty: TyView,
    completion_ty: TyView,
    runtime: Runtime,
)
    requires
        b.current.0 < b.function.blocks.len(),
        b.function.blocks.len() + 0 <= id_limit(),
        b.function.values.len() + 11 <= id_limit(),
    ensures
        ({
            let f = driven_code(b, entry, args, task_ty, completion_ty, runtime).function;
            let base = b.function.blocks.len();
            let before = b.function.block(b.current).insts.len() as int;
            let here = f.block(b.current);
            &&& here.insts.len() == before + 13
            &&& here.insts.take(before) == b.function.block(b.current).insts
            &&& here.params == b.function.block(b.current).params
            &&& makes(
                here,
                before + 0,
                InstKindView::Call { callee: entry, type_args: Seq::empty(), args: args },
            )
            &&& makes(
                here,
                before + 1,
                InstKindView::MakeList { element: TyView::Dynamic, values: Seq::empty() },
            )
            &&& makes(here, before + 2, InstKindView::Const(ConstView::Int(0)))
            &&& makes(
                here,
                before + 3,
                InstKindView::MakeStruct {
                    ty: named_view(runtime.scheduler),
                    fields: seq![given(here, before + 1), given(here, before + 2)],
                    allocation: Allocation::Managed,
                },
            )
            &&& makes(
                here,
                before + 4,
                InstKindView::MakeDyn { interface: None, value: given(here, before + 3) },
            )
            &&& makes(here, before + 5, InstKindView::Const(ConstView::Bool(true)))
            &&& only_does(
                here,
                before + 6,
                InstKindView::SetField {
                    object: given(here, before + 0),
                    field: STARTED,
                    value: given(here, before + 5),
                },
            )
            &&& only_does(
                here,
                before + 7,
                InstKindView::SetField {
                    object: given(here, before + 0),
                    field: SCHEDULER,
                    value: given(here, before + 4),
                },
            )
            &&& makes(
                here,
                before + 8,
                InstKindView::MakeDyn { interface: None, value: given(here, before + 0) },
            )
            &&& makes(
                here,
                before + 9,
                InstKindView::Call {
                    callee: runtime.enqueue,
                    type_args: Seq::empty(),
                    args: seq![given(here, before + 4), given(here, before + 8)],
                },
            )
            &&& makes(
                here,
                before + 10,
                InstKindView::Call {
                    callee: runtime.drive,
                    type_args: Seq::empty(),
                    args: seq![given(here, before + 4), given(here, before + 8)],
                },
            )
            &&& makes(
                here,
                before + 11,
                InstKindView::GetField { object: given(here, before + 0), field: COMPLETION },
            )
            &&& makes(here, before + 12, InstKindView::Unwrap { value: given(here, before + 11) })
            &&& ends(here, TerminatorView::Return(given(here, before + 12)))
            &&& forall|id: BlockId|
                id.0 < base && id != b.current ==> #[trigger] f.block(id) == b.function.block(id)
        }),
{
    broadcast use writing;

    what_is_written(b);
}

/// A body reads, out of the closure it is entered through, its frame, and out of that
/// its task and the state it is in. A state that nothing gave traps.
#[verifier::rlimit(60)]
pub proof fn a_body_is_entered_through_its_frame(
    b: BuilderView,
    completion_ty: TyView,
    frame_ty: TyView,
    task_ty: TyView,
)
    requires
        b.current.0 < b.function.blocks.len(),
        b.function.blocks.len() + 5 <= id_limit(),
        b.function.values.len() + 5 <= id_limit(),
    ensures
        ({
            let f = open_poll_code(b, completion_ty, frame_ty, task_ty).0.function;
            let base = b.function.blocks.len();
            let before = b.function.block(b.current).insts.len() as int;
            let here = f.block(b.current);
            let at_0 = f.block(BlockId((base + 0) as u32));
            let at_1 = f.block(BlockId((base + 1) as u32));
            let at_2 = f.block(BlockId((base + 2) as u32));
            let at_3 = f.block(BlockId((base + 3) as u32));
            let at_4 = f.block(BlockId((base + 4) as u32));
            &&& at_0.insts.len() == 0
            &&& at_0.params.len() == 1
            &&& at_1.insts.len() == 3
            &&& makes(at_1, 0, InstKindView::GetField { object: at_1.params[0], field: 1 })
            &&& makes(at_1, 1, InstKindView::GetField { object: given(at_1, 0), field: TASK })
            &&& makes(at_1, 2, InstKindView::GetField { object: given(at_1, 0), field: STATE })
            &&& at_1.params.len() == 1
            &&& at_2.insts.len() == 0
            &&& ends(at_2, TerminatorView::Trap(Trap::Unreachable))
            &&& at_2.params.len() == 0
            &&& at_3.insts.len() == 0
            &&& at_3.params.len() == 0
            &&& at_4.insts.len() == 0
            &&& at_4.params.len() == 0
            &&& open_poll_code(
                b,
                completion_ty,
                frame_ty,
                task_ty,
            ).1 == (Poll {
                finish: BlockId((base + 0) as u32),
                ended: at_0.params[0],
                entry: BlockId((base + 1) as u32),
                closure: at_1.params[0],
                frame: given(at_1, 0),
                me: given(at_1, 1),
                state: given(at_1, 2),
                nowhere: BlockId((base + 2) as u32),
                begin: BlockId((base + 3) as u32),
                resume_join: BlockId((base + 4) as u32),
            })
            &&& forall|id: BlockId|
                id.0 < base && id != b.current ==> #[trigger] f.block(id) == b.function.block(id)
        }),
{
    broadcast use writing;

    what_is_written(b);
}

/// A body goes on where its state says. A request that is due before it begins
/// completes it, and otherwise it runs. What it ends with is kept in the frame; where
/// that is an error, its children are cancelled. It waits for each child, and then
/// completes with what it kept, and gives back `true`.
#[verifier::rlimit(60)]
pub proof fn a_body_goes_where_its_state_says(
    b: BuilderView,
    poll: Poll,
    cases: Seq<(u64, TargetView)>,
    runtime: Runtime,
    cancelled: Option<TypeId>,
    completion_ty: TyView,
    params: Seq<TyView>,
    body: BlockId,
)
    requires
        b.current.0 < b.function.blocks.len(),
        b.function.blocks.len() + 8 <= id_limit(),
        b.function.values.len() + 40 <= id_limit(),
        body.0 < b.function.blocks.len(),
        poll.entry.0 < b.function.blocks.len(),
        poll.begin.0 < b.function.blocks.len(),
        poll.finish.0 < b.function.blocks.len(),
        poll.resume_join.0 < b.function.blocks.len(),
        poll.entry != poll.begin,
        poll.entry != poll.finish,
        poll.begin != poll.finish,
        poll.entry != poll.resume_join,
        poll.begin != poll.resume_join,
        poll.finish != poll.resume_join,
        b.function.values.len() + params.len() + 40 <= id_limit(),
    ensures
        ({
            let f = close_poll_code(
                b,
                poll,
                cases,
                runtime,
                cancelled,
                completion_ty,
                params,
                body,
            ).function;
            let base = b.function.blocks.len();
            let before = b.function.block(b.current).insts.len() as int;
            &&& cancelled matches Some(id) ==> {
                let here = f.block(b.current);
                let len_0 = b.function.block(poll.entry).insts.len() as int;
                let old_0 = f.block(poll.entry);
                let len_1 = b.function.block(poll.begin).insts.len() as int;
                let old_1 = f.block(poll.begin);
                let at_0 = f.block(BlockId((base + 0) as u32));
                let len_2 = b.function.block(poll.finish).insts.len() as int;
                let old_2 = f.block(poll.finish);
                let at_2 = f.block(BlockId((base + 2) as u32));
                let at_3 = f.block(BlockId((base + 3) as u32));
                let at_4 = f.block(BlockId((base + 4) as u32));
                let at_5 = f.block(BlockId((base + 5) as u32));
                let len_3 = b.function.block(poll.resume_join).insts.len() as int;
                let old_3 = f.block(poll.resume_join);
                let at_6 = f.block(BlockId((base + 6) as u32));
                let at_7 = f.block(BlockId((base + 7) as u32));
                &&& old_0.insts.len() == len_0 + 0
                &&& ends(
                    old_0,
                    TerminatorView::Switch {
                        value: poll.state,
                        cases: cases,
                        default: TargetView::to(poll.nowhere),
                    },
                )
                &&& old_1.insts.len() == len_1 + 5
                &&& makes(
                    old_1,
                    len_1 + 0,
                    InstKindView::GetField { object: poll.me, field: REQUEST },
                )
                &&& makes(
                    old_1,
                    len_1 + 1,
                    InstKindView::GetField { object: poll.me, field: DELIVERED },
                )
                &&& makes(old_1, len_1 + 2, InstKindView::IsSome { value: given(old_1, len_1 + 0) })
                &&& makes(
                    old_1,
                    len_1 + 3,
                    InstKindView::Unary { op: UnaryOp::Not, operand: given(old_1, len_1 + 1) },
                )
                &&& makes(
                    old_1,
                    len_1 + 4,
                    InstKindView::Binary {
                        op: BinaryOp::BitAnd,
                        left: given(old_1, len_1 + 2),
                        right: given(old_1, len_1 + 3),
                    },
                )
                &&& ends(
                    old_1,
                    TerminatorView::Branch {
                        condition: given(old_1, len_1 + 4),
                        then: TargetView::to(BlockId((base + 0) as u32)),
                        otherwise: TargetView::to(BlockId((base + 1) as u32)),
                    },
                )
                &&& at_0.insts.len() == 4
                &&& makes(at_0, 0, InstKindView::Const(ConstView::Bool(true)))
                &&& only_does(
                    at_0,
                    1,
                    InstKindView::SetField {
                        object: poll.me,
                        field: DELIVERED,
                        value: given(at_0, 0),
                    },
                )
                &&& makes(at_0, 2, InstKindView::Unwrap { value: given(old_1, len_1 + 0) })
                &&& makes(
                    at_0,
                    3,
                    InstKindView::MakeEnum {
                        ty: completion_ty,
                        variant: 1,
                        payload: seq![given(at_0, 2)],
                    },
                )
                &&& ends(
                    at_0,
                    TerminatorView::Jump(
                        TargetView { block: poll.finish, args: seq![given(at_0, 3)] },
                    ),
                )
                &&& at_0.params.len() == 0
                &&& old_2.insts.len() == len_2 + 4
                &&& only_does(
                    old_2,
                    len_2 + 0,
                    InstKindView::SetField { object: poll.frame, field: RESULT, value: poll.ended },
                )
                &&& makes(old_2, len_2 + 1, InstKindView::GetTag { value: poll.ended })
                &&& makes(old_2, len_2 + 2, InstKindView::Const(ConstView::Int(1)))
                &&& makes(
                    old_2,
                    len_2 + 3,
                    InstKindView::Binary {
                        op: BinaryOp::Equal,
                        left: given(old_2, len_2 + 1),
                        right: given(old_2, len_2 + 2),
                    },
                )
                &&& ends(
                    old_2,
                    TerminatorView::Branch {
                        condition: given(old_2, len_2 + 3),
                        then: TargetView::to(BlockId((base + 2) as u32)),
                        otherwise: TargetView::to(BlockId((base + 3) as u32)),
                    },
                )
                &&& at_2.insts.len() == 4
                &&& makes(
                    at_2,
                    0,
                    InstKindView::MakeStruct {
                        ty: named_view(id),
                        fields: Seq::empty(),
                        allocation: Allocation::Managed,
                    },
                )
                &&& makes(at_2, 1, InstKindView::MakeDyn { interface: None, value: given(at_2, 0) })
                &&& makes(at_2, 2, InstKindView::MakeDyn { interface: None, value: poll.me })
                &&& makes(
                    at_2,
                    3,
                    InstKindView::Call {
                        callee: runtime.cancel_children,
                        type_args: Seq::empty(),
                        args: seq![given(at_2, 2), given(at_2, 1)],
                    },
                )
                &&& ends(at_2, TerminatorView::Jump(TargetView::to(BlockId((base + 3) as u32))))
                &&& at_2.params.len() == 0
                &&& at_3.insts.len() == 3
                &&& makes(at_3, 0, InstKindView::MakeDyn { interface: None, value: poll.me })
                &&& makes(
                    at_3,
                    1,
                    InstKindView::Call {
                        callee: runtime.next_child,
                        type_args: Seq::empty(),
                        args: seq![given(at_3, 0)],
                    },
                )
                &&& makes(at_3, 2, InstKindView::IsSome { value: given(at_3, 1) })
                &&& ends(
                    at_3,
                    TerminatorView::Branch {
                        condition: given(at_3, 2),
                        then: TargetView::to(BlockId((base + 4) as u32)),
                        otherwise: TargetView::to(BlockId((base + 5) as u32)),
                    },
                )
                &&& at_3.params.len() == 0
                &&& at_4.insts.len() == 6
                &&& makes(at_4, 0, InstKindView::Unwrap { value: given(at_3, 1) })
                &&& makes(at_4, 1, InstKindView::MakeDyn { interface: None, value: poll.me })
                &&& makes(
                    at_4,
                    2,
                    InstKindView::Call {
                        callee: runtime.wait,
                        type_args: Seq::empty(),
                        args: seq![given(at_4, 1), given(at_4, 0)],
                    },
                )
                &&& makes(at_4, 3, InstKindView::Const(ConstView::Int(JOIN)))
                &&& only_does(
                    at_4,
                    4,
                    InstKindView::SetField {
                        object: poll.frame,
                        field: STATE,
                        value: given(at_4, 3),
                    },
                )
                &&& makes(at_4, 5, InstKindView::Const(ConstView::Bool(false)))
                &&& ends(at_4, TerminatorView::Return(given(at_4, 5)))
                &&& at_4.params.len() == 0
                &&& at_5.insts.len() == 4
                &&& makes(at_5, 0, InstKindView::GetField { object: poll.frame, field: RESULT })
                &&& makes(at_5, 1, InstKindView::MakeSome { value: given(at_5, 0) })
                &&& only_does(
                    at_5,
                    2,
                    InstKindView::SetField {
                        object: poll.me,
                        field: COMPLETION,
                        value: given(at_5, 1),
                    },
                )
                &&& makes(at_5, 3, InstKindView::Const(ConstView::Bool(true)))
                &&& ends(at_5, TerminatorView::Return(given(at_5, 3)))
                &&& at_5.params.len() == 0
                &&& old_3.insts.len() == len_3 + 7
                &&& makes(old_3, len_3 + 0, InstKindView::Const(ConstView::Nil))
                &&& only_does(
                    old_3,
                    len_3 + 1,
                    InstKindView::SetField {
                        object: poll.me,
                        field: WAITING,
                        value: given(old_3, len_3 + 0),
                    },
                )
                &&& makes(
                    old_3,
                    len_3 + 2,
                    InstKindView::GetField { object: poll.me, field: REQUEST },
                )
                &&& makes(
                    old_3,
                    len_3 + 3,
                    InstKindView::GetField { object: poll.me, field: DELIVERED },
                )
                &&& makes(old_3, len_3 + 4, InstKindView::IsSome { value: given(old_3, len_3 + 2) })
                &&& makes(
                    old_3,
                    len_3 + 5,
                    InstKindView::Unary { op: UnaryOp::Not, operand: given(old_3, len_3 + 3) },
                )
                &&& makes(
                    old_3,
                    len_3 + 6,
                    InstKindView::Binary {
                        op: BinaryOp::BitAnd,
                        left: given(old_3, len_3 + 4),
                        right: given(old_3, len_3 + 5),
                    },
                )
                &&& ends(
                    old_3,
                    TerminatorView::Branch {
                        condition: given(old_3, len_3 + 6),
                        then: TargetView::to(BlockId((base + 6) as u32)),
                        otherwise: TargetView::to(BlockId((base + 3) as u32)),
                    },
                )
                &&& at_6.insts.len() == 4
                &&& makes(at_6, 0, InstKindView::GetField { object: poll.frame, field: RESULT })
                &&& makes(at_6, 1, InstKindView::GetTag { value: given(at_6, 0) })
                &&& makes(at_6, 2, InstKindView::Const(ConstView::Int(1)))
                &&& makes(
                    at_6,
                    3,
                    InstKindView::Binary {
                        op: BinaryOp::Equal,
                        left: given(at_6, 1),
                        right: given(at_6, 2),
                    },
                )
                &&& ends(
                    at_6,
                    TerminatorView::Branch {
                        condition: given(at_6, 3),
                        then: TargetView::to(BlockId((base + 2) as u32)),
                        otherwise: TargetView::to(BlockId((base + 7) as u32)),
                    },
                )
                &&& at_6.params.len() == 0
                &&& at_7.insts.len() == 5
                &&& makes(at_7, 0, InstKindView::Const(ConstView::Bool(true)))
                &&& only_does(
                    at_7,
                    1,
                    InstKindView::SetField {
                        object: poll.me,
                        field: DELIVERED,
                        value: given(at_7, 0),
                    },
                )
                &&& makes(at_7, 2, InstKindView::Unwrap { value: given(old_3, len_3 + 2) })
                &&& makes(
                    at_7,
                    3,
                    InstKindView::MakeEnum {
                        ty: completion_ty,
                        variant: 1,
                        payload: seq![given(at_7, 2)],
                    },
                )
                &&& only_does(
                    at_7,
                    4,
                    InstKindView::SetField {
                        object: poll.frame,
                        field: RESULT,
                        value: given(at_7, 3),
                    },
                )
                &&& ends(at_7, TerminatorView::Jump(TargetView::to(BlockId((base + 2) as u32))))
                &&& at_7.params.len() == 0
            }
            &&& (cancelled is None) ==> {
                let here = f.block(b.current);
                let len_0 = b.function.block(poll.entry).insts.len() as int;
                let old_0 = f.block(poll.entry);
                let len_1 = b.function.block(poll.begin).insts.len() as int;
                let old_1 = f.block(poll.begin);
                let at_0 = f.block(BlockId((base + 0) as u32));
                let len_2 = b.function.block(poll.finish).insts.len() as int;
                let old_2 = f.block(poll.finish);
                let at_2 = f.block(BlockId((base + 2) as u32));
                let at_3 = f.block(BlockId((base + 3) as u32));
                let at_4 = f.block(BlockId((base + 4) as u32));
                let at_5 = f.block(BlockId((base + 5) as u32));
                let len_3 = b.function.block(poll.resume_join).insts.len() as int;
                let old_3 = f.block(poll.resume_join);
                let at_6 = f.block(BlockId((base + 6) as u32));
                let at_7 = f.block(BlockId((base + 7) as u32));
                &&& old_0.insts.len() == len_0 + 0
                &&& ends(
                    old_0,
                    TerminatorView::Switch {
                        value: poll.state,
                        cases: cases,
                        default: TargetView::to(poll.nowhere),
                    },
                )
                &&& old_1.insts.len() == len_1 + 5
                &&& makes(
                    old_1,
                    len_1 + 0,
                    InstKindView::GetField { object: poll.me, field: REQUEST },
                )
                &&& makes(
                    old_1,
                    len_1 + 1,
                    InstKindView::GetField { object: poll.me, field: DELIVERED },
                )
                &&& makes(old_1, len_1 + 2, InstKindView::IsSome { value: given(old_1, len_1 + 0) })
                &&& makes(
                    old_1,
                    len_1 + 3,
                    InstKindView::Unary { op: UnaryOp::Not, operand: given(old_1, len_1 + 1) },
                )
                &&& makes(
                    old_1,
                    len_1 + 4,
                    InstKindView::Binary {
                        op: BinaryOp::BitAnd,
                        left: given(old_1, len_1 + 2),
                        right: given(old_1, len_1 + 3),
                    },
                )
                &&& ends(
                    old_1,
                    TerminatorView::Branch {
                        condition: given(old_1, len_1 + 4),
                        then: TargetView::to(BlockId((base + 0) as u32)),
                        otherwise: TargetView::to(BlockId((base + 1) as u32)),
                    },
                )
                &&& at_0.insts.len() == 4
                &&& makes(at_0, 0, InstKindView::Const(ConstView::Bool(true)))
                &&& only_does(
                    at_0,
                    1,
                    InstKindView::SetField {
                        object: poll.me,
                        field: DELIVERED,
                        value: given(at_0, 0),
                    },
                )
                &&& makes(at_0, 2, InstKindView::Unwrap { value: given(old_1, len_1 + 0) })
                &&& makes(
                    at_0,
                    3,
                    InstKindView::MakeEnum {
                        ty: completion_ty,
                        variant: 1,
                        payload: seq![given(at_0, 2)],
                    },
                )
                &&& ends(
                    at_0,
                    TerminatorView::Jump(
                        TargetView { block: poll.finish, args: seq![given(at_0, 3)] },
                    ),
                )
                &&& at_0.params.len() == 0
                &&& old_2.insts.len() == len_2 + 4
                &&& only_does(
                    old_2,
                    len_2 + 0,
                    InstKindView::SetField { object: poll.frame, field: RESULT, value: poll.ended },
                )
                &&& makes(old_2, len_2 + 1, InstKindView::GetTag { value: poll.ended })
                &&& makes(old_2, len_2 + 2, InstKindView::Const(ConstView::Int(1)))
                &&& makes(
                    old_2,
                    len_2 + 3,
                    InstKindView::Binary {
                        op: BinaryOp::Equal,
                        left: given(old_2, len_2 + 1),
                        right: given(old_2, len_2 + 2),
                    },
                )
                &&& ends(
                    old_2,
                    TerminatorView::Branch {
                        condition: given(old_2, len_2 + 3),
                        then: TargetView::to(BlockId((base + 2) as u32)),
                        otherwise: TargetView::to(BlockId((base + 3) as u32)),
                    },
                )
                &&& at_2.insts.len() == 5
                &&& makes(at_2, 0, InstKindView::Const(ConstView::Str("cancelled"@)))
                &&& makes(at_2, 1, InstKindView::MakeError { message: given(at_2, 0) })
                &&& makes(at_2, 2, InstKindView::MakeDyn { interface: None, value: given(at_2, 1) })
                &&& makes(at_2, 3, InstKindView::MakeDyn { interface: None, value: poll.me })
                &&& makes(
                    at_2,
                    4,
                    InstKindView::Call {
                        callee: runtime.cancel_children,
                        type_args: Seq::empty(),
                        args: seq![given(at_2, 3), given(at_2, 2)],
                    },
                )
                &&& ends(at_2, TerminatorView::Jump(TargetView::to(BlockId((base + 3) as u32))))
                &&& at_2.params.len() == 0
                &&& at_3.insts.len() == 3
                &&& makes(at_3, 0, InstKindView::MakeDyn { interface: None, value: poll.me })
                &&& makes(
                    at_3,
                    1,
                    InstKindView::Call {
                        callee: runtime.next_child,
                        type_args: Seq::empty(),
                        args: seq![given(at_3, 0)],
                    },
                )
                &&& makes(at_3, 2, InstKindView::IsSome { value: given(at_3, 1) })
                &&& ends(
                    at_3,
                    TerminatorView::Branch {
                        condition: given(at_3, 2),
                        then: TargetView::to(BlockId((base + 4) as u32)),
                        otherwise: TargetView::to(BlockId((base + 5) as u32)),
                    },
                )
                &&& at_3.params.len() == 0
                &&& at_4.insts.len() == 6
                &&& makes(at_4, 0, InstKindView::Unwrap { value: given(at_3, 1) })
                &&& makes(at_4, 1, InstKindView::MakeDyn { interface: None, value: poll.me })
                &&& makes(
                    at_4,
                    2,
                    InstKindView::Call {
                        callee: runtime.wait,
                        type_args: Seq::empty(),
                        args: seq![given(at_4, 1), given(at_4, 0)],
                    },
                )
                &&& makes(at_4, 3, InstKindView::Const(ConstView::Int(JOIN)))
                &&& only_does(
                    at_4,
                    4,
                    InstKindView::SetField {
                        object: poll.frame,
                        field: STATE,
                        value: given(at_4, 3),
                    },
                )
                &&& makes(at_4, 5, InstKindView::Const(ConstView::Bool(false)))
                &&& ends(at_4, TerminatorView::Return(given(at_4, 5)))
                &&& at_4.params.len() == 0
                &&& at_5.insts.len() == 4
                &&& makes(at_5, 0, InstKindView::GetField { object: poll.frame, field: RESULT })
                &&& makes(at_5, 1, InstKindView::MakeSome { value: given(at_5, 0) })
                &&& only_does(
                    at_5,
                    2,
                    InstKindView::SetField {
                        object: poll.me,
                        field: COMPLETION,
                        value: given(at_5, 1),
                    },
                )
                &&& makes(at_5, 3, InstKindView::Const(ConstView::Bool(true)))
                &&& ends(at_5, TerminatorView::Return(given(at_5, 3)))
                &&& at_5.params.len() == 0
                &&& old_3.insts.len() == len_3 + 7
                &&& makes(old_3, len_3 + 0, InstKindView::Const(ConstView::Nil))
                &&& only_does(
                    old_3,
                    len_3 + 1,
                    InstKindView::SetField {
                        object: poll.me,
                        field: WAITING,
                        value: given(old_3, len_3 + 0),
                    },
                )
                &&& makes(
                    old_3,
                    len_3 + 2,
                    InstKindView::GetField { object: poll.me, field: REQUEST },
                )
                &&& makes(
                    old_3,
                    len_3 + 3,
                    InstKindView::GetField { object: poll.me, field: DELIVERED },
                )
                &&& makes(old_3, len_3 + 4, InstKindView::IsSome { value: given(old_3, len_3 + 2) })
                &&& makes(
                    old_3,
                    len_3 + 5,
                    InstKindView::Unary { op: UnaryOp::Not, operand: given(old_3, len_3 + 3) },
                )
                &&& makes(
                    old_3,
                    len_3 + 6,
                    InstKindView::Binary {
                        op: BinaryOp::BitAnd,
                        left: given(old_3, len_3 + 4),
                        right: given(old_3, len_3 + 5),
                    },
                )
                &&& ends(
                    old_3,
                    TerminatorView::Branch {
                        condition: given(old_3, len_3 + 6),
                        then: TargetView::to(BlockId((base + 6) as u32)),
                        otherwise: TargetView::to(BlockId((base + 3) as u32)),
                    },
                )
                &&& at_6.insts.len() == 4
                &&& makes(at_6, 0, InstKindView::GetField { object: poll.frame, field: RESULT })
                &&& makes(at_6, 1, InstKindView::GetTag { value: given(at_6, 0) })
                &&& makes(at_6, 2, InstKindView::Const(ConstView::Int(1)))
                &&& makes(
                    at_6,
                    3,
                    InstKindView::Binary {
                        op: BinaryOp::Equal,
                        left: given(at_6, 1),
                        right: given(at_6, 2),
                    },
                )
                &&& ends(
                    at_6,
                    TerminatorView::Branch {
                        condition: given(at_6, 3),
                        then: TargetView::to(BlockId((base + 2) as u32)),
                        otherwise: TargetView::to(BlockId((base + 7) as u32)),
                    },
                )
                &&& at_6.params.len() == 0
                &&& at_7.insts.len() == 5
                &&& makes(at_7, 0, InstKindView::Const(ConstView::Bool(true)))
                &&& only_does(
                    at_7,
                    1,
                    InstKindView::SetField {
                        object: poll.me,
                        field: DELIVERED,
                        value: given(at_7, 0),
                    },
                )
                &&& makes(at_7, 2, InstKindView::Unwrap { value: given(old_3, len_3 + 2) })
                &&& makes(
                    at_7,
                    3,
                    InstKindView::MakeEnum {
                        ty: completion_ty,
                        variant: 1,
                        payload: seq![given(at_7, 2)],
                    },
                )
                &&& only_does(
                    at_7,
                    4,
                    InstKindView::SetField {
                        object: poll.frame,
                        field: RESULT,
                        value: given(at_7, 3),
                    },
                )
                &&& ends(at_7, TerminatorView::Jump(TargetView::to(BlockId((base + 2) as u32))))
                &&& at_7.params.len() == 0
            }
            &&& forall|id: BlockId|
                id.0 < base && id != b.current && id != poll.entry && id != poll.begin && id
                    != poll.finish && id != poll.resume_join ==> #[trigger] f.block(id)
                    == b.function.block(id)
        }),
{
    broadcast use writing;

    what_is_written(b);
}

/// A truth is spelled `true` where it holds, and `false` where it does not.
#[verifier::rlimit(60)]
pub proof fn a_truth_is_spelled_as_it_is(
    b: BuilderView,
    value: Value,
)
    requires
        b.current.0 < b.function.blocks.len(),
        b.function.blocks.len() + 3 <= id_limit(),
        b.function.values.len() + 3 <= id_limit(),
    ensures
        ({
            let f = spell_truth_code(b, value).function;
            let base = b.function.blocks.len();
            let before = b.function.block(b.current).insts.len() as int;
            let here = f.block(b.current);
            let at_0 = f.block(BlockId((base + 0) as u32));
            let at_1 = f.block(BlockId((base + 1) as u32));
            let at_2 = f.block(BlockId((base + 2) as u32));
            &&& here.insts.len() == before + 0
            &&& here.insts.take(before) == b.function.block(b.current).insts
            &&& here.params == b.function.block(b.current).params
            &&& ends(
                here,
                TerminatorView::Branch {
                    condition: value,
                    then: TargetView::to(BlockId((base + 0) as u32)),
                    otherwise: TargetView::to(BlockId((base + 1) as u32)),
                },
            )
            &&& at_0.insts.len() == 1
            &&& makes(at_0, 0, InstKindView::Const(ConstView::Str("true"@)))
            &&& ends(
                at_0,
                TerminatorView::Jump(
                    TargetView { block: BlockId((base + 2) as u32), args: seq![given(at_0, 0)] },
                ),
            )
            &&& at_0.params.len() == 0
            &&& at_1.insts.len() == 1
            &&& makes(at_1, 0, InstKindView::Const(ConstView::Str("false"@)))
            &&& ends(
                at_1,
                TerminatorView::Jump(
                    TargetView { block: BlockId((base + 2) as u32), args: seq![given(at_1, 0)] },
                ),
            )
            &&& at_1.params.len() == 0
            &&& at_2.insts.len() == 0
            &&& ends(at_2, TerminatorView::Return(at_2.params[0]))
            &&& at_2.params.len() == 1
            &&& forall|id: BlockId|
                id.0 < base && id != b.current ==> #[trigger] f.block(id) == b.function.block(id)
        }),
{
    broadcast use writing;

    what_is_written(b);
}

/// Comparing gives less than nothing where the left is below the right, more where it
/// is above, and nothing where it is neither.
#[verifier::rlimit(60)]
pub proof fn an_order_is_below_or_above_zero(
    b: BuilderView,
    left: Value,
    right: Value,
)
    requires
        b.current.0 < b.function.blocks.len(),
        b.function.blocks.len() + 4 <= id_limit(),
        b.function.values.len() + 5 <= id_limit(),
    ensures
        ({
            let f = order_code(b, left, right).function;
            let base = b.function.blocks.len();
            let before = b.function.block(b.current).insts.len() as int;
            let here = f.block(b.current);
            let at_0 = f.block(BlockId((base + 0) as u32));
            let at_1 = f.block(BlockId((base + 1) as u32));
            let at_2 = f.block(BlockId((base + 2) as u32));
            let at_3 = f.block(BlockId((base + 3) as u32));
            &&& here.insts.len() == before + 1
            &&& here.insts.take(before) == b.function.block(b.current).insts
            &&& here.params == b.function.block(b.current).params
            &&& makes(
                here,
                before + 0,
                InstKindView::Binary { op: BinaryOp::Less, left: left, right: right },
            )
            &&& ends(
                here,
                TerminatorView::Branch {
                    condition: given(here, before + 0),
                    then: TargetView::to(BlockId((base + 0) as u32)),
                    otherwise: TargetView::to(BlockId((base + 1) as u32)),
                },
            )
            &&& at_0.insts.len() == 1
            &&& makes(at_0, 0, InstKindView::Const(ConstView::Int(0xffff_ffff_ffff_ffff)))
            &&& ends(at_0, TerminatorView::Return(given(at_0, 0)))
            &&& at_0.params.len() == 0
            &&& at_1.insts.len() == 1
            &&& makes(
                at_1,
                0,
                InstKindView::Binary { op: BinaryOp::Greater, left: left, right: right },
            )
            &&& ends(
                at_1,
                TerminatorView::Branch {
                    condition: given(at_1, 0),
                    then: TargetView::to(BlockId((base + 2) as u32)),
                    otherwise: TargetView::to(BlockId((base + 3) as u32)),
                },
            )
            &&& at_1.params.len() == 0
            &&& at_2.insts.len() == 1
            &&& makes(at_2, 0, InstKindView::Const(ConstView::Int(1)))
            &&& ends(at_2, TerminatorView::Return(given(at_2, 0)))
            &&& at_2.params.len() == 0
            &&& at_3.insts.len() == 1
            &&& makes(at_3, 0, InstKindView::Const(ConstView::Int(0)))
            &&& ends(at_3, TerminatorView::Return(given(at_3, 0)))
            &&& at_3.params.len() == 0
            &&& forall|id: BlockId|
                id.0 < base && id != b.current ==> #[trigger] f.block(id) == b.function.block(id)
        }),
{
    broadcast use writing;

    what_is_written(b);
}

/// Whether an instruction reads a field of the frame into a value.
pub open spec fn reads_field(inst: InstView, frame: Value, field: u32, value: Value) -> bool {
    inst.result == Some(value) && inst.kind == (InstKindView::GetField { object: frame, field })
}

/// Whether an instruction writes a value into a field of the frame.
pub open spec fn writes_field(inst: InstView, frame: Value, field: u32, value: Value) -> bool {
    inst.result is None && inst.kind == (InstKindView::SetField { object: frame, field, value })
}

/// Whether a value lives in a field of the frame.
pub open spec fn lives_in(homes: Seq<Option<u32>>, value: Value, field: u32) -> bool {
    value.0 < homes.len() && homes[value.0 as int] == Some(field)
}

/// Whether `new` stands for `value` once `reads` have run: a value with a home is read from
/// it, and any other stands for itself.
pub open spec fn is_at_hand(
    frame: Value,
    homes: Seq<Option<u32>>,
    reads: Seq<InstView>,
    value: Value,
    new: Value,
) -> bool {
    if value.0 < homes.len() && homes[value.0 as int] is Some {
        exists|j: int|
            0 <= j < reads.len() && reads_field(
                #[trigger] reads[j],
                frame,
                homes[value.0 as int]->Some_0,
                new,
            )
    } else {
        new == value
    }
}

proof fn at_hand_stays(
    frame: Value,
    homes: Seq<Option<u32>>,
    reads: Seq<InstView>,
    more: InstView,
    value: Value,
    new: Value,
)
    requires
        is_at_hand(frame, homes, reads, value, new),
    ensures
        is_at_hand(frame, homes, reads.push(more), value, new),
{
    if value.0 < homes.len() && homes[value.0 as int] is Some {
        let j = choose|j: int|
            0 <= j < reads.len() && reads_field(
                #[trigger] reads[j],
                frame,
                homes[value.0 as int]->Some_0,
                new,
            );
        assert(reads.push(more)[j] == reads[j]);
    }
}

proof fn loaded_are_at_hand(
    function: FunctionView,
    frame: Value,
    homes: Seq<Option<u32>>,
    values: Seq<Value>,
    span: Span,
    count: nat,
)
    requires
        count <= values.len(),
    ensures
        ({
            let (after, reads, new) = loaded(function, frame, homes, values, span, count);
            &&& new.len() == count
            &&& forall|k: int|
                0 <= k < count ==> is_at_hand(frame, homes, reads, values[k], #[trigger] new[k])
            &&& forall|j: int|
                0 <= j < reads.len() ==> (#[trigger] reads[j]).kind is GetField
        }),
    decreases count,
{
    if count > 0 {
        loaded_are_at_hand(function, frame, homes, values, span, (count - 1) as nat);
        let (held, before, kept) = loaded(
            function,
            frame,
            homes,
            values,
            span,
            (count - 1) as nat,
        );
        let (after, reads, new) = loaded(function, frame, homes, values, span, count);
        assert forall|k: int| 0 <= k < count implies is_at_hand(
            frame,
            homes,
            reads,
            values[k],
            #[trigger] new[k],
        ) by {
            if k < count - 1 {
                assert(new[k] == kept[k]);
                if reads != before {
                    at_hand_stays(frame, homes, before, reads.last(), values[k], new[k]);
                    assert(reads =~= before.push(reads.last()));
                }
            } else if reads.len() > before.len() {
                assert(reads_field(
                    reads[before.len() as int],
                    frame,
                    homes[values[k].0 as int]->Some_0,
                    new[k],
                ));
            }
        }
    }
}

/// An instruction reads what lives in the frame from where it lives, each operand in its
/// place. What it does stays, and so does what it produces, which is written where it
/// lives once it is there.
pub proof fn an_instruction_works_through_the_frame(
    function: FunctionView,
    frame: Value,
    homes: Seq<Option<u32>>,
    inst: InstView,
    span: Span,
)
    ensures
        ({
            let written = spilled_inst(function, frame, homes, inst, span).1;
            exists|at: int|
                {
                    &&& 0 <= at < written.len()
                    &&& (#[trigger] written[at]).result == inst.result
                    &&& written[at].span == inst.span
                    &&& written[at].kind.with_operands(inst.kind.operands()) == inst.kind
                    &&& written[at].kind.operands().len() == inst.kind.operands().len()
                    &&& forall|k: int|
                        0 <= k < inst.kind.operands().len() ==> is_at_hand(
                            frame,
                            homes,
                            written.take(at),
                            #[trigger] inst.kind.operands()[k],
                            written[at].kind.operands()[k],
                        )
                    &&& forall|j: int|
                        0 <= j < at ==> (#[trigger] written[j]).kind is GetField
                    &&& match inst.result {
                        Some(result) => if result.0 < homes.len()
                            && homes[result.0 as int] is Some {
                            written.len() == at + 2 && writes_field(
                                written[at + 1],
                                frame,
                                homes[result.0 as int]->Some_0,
                                result,
                            )
                        } else {
                            written.len() == at + 1
                        },
                        None => written.len() == at + 1,
                    }
                }
        }),
{
    let operands = inst.kind.operands();
    let (after, reads, new) = loaded(function, frame, homes, operands, span, operands.len());
    let written = spilled_inst(function, frame, homes, inst, span).1;
    loaded_are_at_hand(function, frame, homes, operands, span, operands.len());
    given_operands_are_read(inst.kind, new);
    only_operands_are_given(inst.kind, new);
    let at = reads.len() as int;
    assert(written.take(at) =~= reads);
    assert(written[at].kind == inst.kind.with_operands(new));
    assert forall|j: int| 0 <= j < at implies (#[trigger] written[j]).kind is GetField by {
        assert(written[j] == reads[j]);
    }
    assert forall|k: int| 0 <= k < operands.len() implies is_at_hand(
        frame,
        homes,
        written.take(at),
        #[trigger] operands[k],
        written[at].kind.operands()[k],
    ) by {
        assert(written[at].kind.operands()[k] == new[k]);
    }
}

/// Whether one jump stands for another: it goes where the other goes, and passes what
/// stands for what the other passes.
pub open spec fn goes_alike(
    frame: Value,
    homes: Seq<Option<u32>>,
    reads: Seq<InstView>,
    before: TargetView,
    after: TargetView,
) -> bool {
    &&& after.block == before.block
    &&& after.args.len() == before.args.len()
    &&& forall|k: int|
        0 <= k < before.args.len() ==> is_at_hand(
            frame,
            homes,
            reads,
            before.args[k],
            #[trigger] after.args[k],
        )
}

proof fn case_args_are_found(cases: Seq<(u64, TargetView)>, i: int, count: nat)
    requires
        0 <= i < count <= cases.len(),
    ensures
        case_args(cases, i as nat).len() + cases[i].1.args.len() <= case_args(cases, count).len(),
        forall|k: int|
            0 <= k < cases[i].1.args.len() ==> case_args(cases, count)[case_args(
                cases,
                i as nat,
            ).len() + k] == #[trigger] cases[i].1.args[k],
    decreases count,
{
    if i < count - 1 {
        case_args_are_found(cases, i, (count - 1) as nat);
    }
}

/// The end of a block reads what lives in the frame from where it lives, and otherwise goes
/// where it went, on the same grounds.
pub proof fn an_ending_works_through_the_frame(
    function: FunctionView,
    frame: Value,
    homes: Seq<Option<u32>>,
    term: TerminatorView,
    span: Span,
)
    ensures
        ({
            let (_, reads, after) = spilled_term(function, frame, homes, Some(term), span);
            match term {
                TerminatorView::Jump(to) => after matches Some(TerminatorView::Jump(now))
                    && goes_alike(frame, homes, reads, to, now),
                TerminatorView::Branch { condition, then, otherwise } => after matches Some(
                    TerminatorView::Branch { condition: asked, then: yes, otherwise: no },
                ) && is_at_hand(frame, homes, reads, condition, asked) && goes_alike(
                    frame,
                    homes,
                    reads,
                    then,
                    yes,
                ) && goes_alike(frame, homes, reads, otherwise, no),
                TerminatorView::Switch { value, cases, default } => after matches Some(
                    TerminatorView::Switch { value: asked, cases: now, default: other },
                ) && is_at_hand(frame, homes, reads, value, asked) && now.len() == cases.len()
                    && (forall|i: int|
                    0 <= i < cases.len() ==> (#[trigger] now[i]).0 == cases[i].0 && goes_alike(
                        frame,
                        homes,
                        reads,
                        cases[i].1,
                        now[i].1,
                    )) && goes_alike(frame, homes, reads, default, other),
                TerminatorView::Return(value) => after matches Some(TerminatorView::Return(now))
                    && is_at_hand(frame, homes, reads, value, now),
                TerminatorView::Trap(trap) => after == Some(TerminatorView::Trap(trap)),
            }
        }),
{
    let operands = term_operands(term);
    let (after, reads, new) = loaded(function, frame, homes, operands, span, operands.len());
    loaded_are_at_hand(function, frame, homes, operands, span, operands.len());
    match term {
        TerminatorView::Jump(to) => {
            passes_alike(frame, homes, reads, operands, new, to, 0);
        },
        TerminatorView::Branch { condition, then, otherwise } => {
            assert(operands[0] == condition);
            assert(is_at_hand(frame, homes, reads, operands[0], new[0]));
            passes_alike(frame, homes, reads, operands, new, then, 1);
            passes_alike(
                frame,
                homes,
                reads,
                operands,
                new,
                otherwise,
                1 + then.args.len() as int,
            );
        },
        TerminatorView::Switch { value, cases, default } => {
            let passed = case_args(cases, cases.len());
            assert(operands[0] == value);
            assert(is_at_hand(frame, homes, reads, operands[0], new[0]));
            assert forall|i: int| 0 <= i < cases.len() implies goes_alike(
                frame,
                homes,
                reads,
                cases[i].1,
                #[trigger] passing(cases[i].1, new, 1int + case_args(cases, i as nat).len()),
            ) by {
                case_args_are_found(cases, i, cases.len());
                let first = 1int + case_args(cases, i as nat).len();
                assert forall|k: int| 0 <= k < cases[i].1.args.len() implies operands[first + k]
                    == #[trigger] cases[i].1.args[k] by {
                    assert(passed[first - 1 + k] == cases[i].1.args[k]);
                }
                passes_alike(frame, homes, reads, operands, new, cases[i].1, first);
            }
            passes_alike(frame, homes, reads, operands, new, default, 1 + passed.len() as int);
        },
        TerminatorView::Return(value) => {
            assert(operands[0] == value);
            assert(is_at_hand(frame, homes, reads, operands[0], new[0]));
        },
        TerminatorView::Trap(_) => {},
    }
}

proof fn passes_alike(
    frame: Value,
    homes: Seq<Option<u32>>,
    reads: Seq<InstView>,
    operands: Seq<Value>,
    new: Seq<Value>,
    to: TargetView,
    first: int,
)
    requires
        0 <= first,
        first + to.args.len() <= operands.len(),
        new.len() == operands.len(),
        forall|k: int|
            0 <= k < operands.len() ==> is_at_hand(
                frame,
                homes,
                reads,
                operands[k],
                #[trigger] new[k],
            ),
        forall|k: int|
            0 <= k < to.args.len() ==> operands[first + k] == #[trigger] to.args[k],
    ensures
        goes_alike(frame, homes, reads, to, passing(to, new, first)),
{
    let now = passing(to, new, first);
    assert forall|k: int| 0 <= k < to.args.len() implies is_at_hand(
        frame,
        homes,
        reads,
        to.args[k],
        #[trigger] now.args[k],
    ) by {
        assert(now.args[k] == new[first + k]);
        assert(operands[first + k] == to.args[k]);
    }
}

/// A parameter of a block that lives in the frame is written there as the block begins.
pub proof fn a_parameter_is_kept_where_it_lives(
    frame: Value,
    homes: Seq<Option<u32>>,
    params: Seq<Value>,
    span: Span,
    i: int,
    field: u32,
)
    requires
        0 <= i < params.len(),
        lives_in(homes, params[i], field),
    ensures
        exists|j: int|
            0 <= j < kept_params(frame, homes, params, span, params.len()).len() && writes_field(
                #[trigger] kept_params(frame, homes, params, span, params.len())[j],
                frame,
                field,
                params[i],
            ),
{
    a_parameter_is_kept_among(frame, homes, params, span, i, field, params.len());
}

proof fn a_parameter_is_kept_among(
    frame: Value,
    homes: Seq<Option<u32>>,
    params: Seq<Value>,
    span: Span,
    i: int,
    field: u32,
    count: nat,
)
    requires
        0 <= i < count <= params.len(),
        lives_in(homes, params[i], field),
    ensures
        exists|j: int|
            0 <= j < kept_params(frame, homes, params, span, count).len() && writes_field(
                #[trigger] kept_params(frame, homes, params, span, count)[j],
                frame,
                field,
                params[i],
            ),
    decreases count,
{
    let before = kept_params(frame, homes, params, span, (count - 1) as nat);
    let all = kept_params(frame, homes, params, span, count);
    if i == count - 1 {
        assert(all[before.len() as int] == kept(frame, homes, params[i], span)[0]);
        assert(writes_field(all[before.len() as int], frame, field, params[i]));
    } else {
        a_parameter_is_kept_among(frame, homes, params, span, i, field, (count - 1) as nat);
        let j = choose|j: int|
            0 <= j < before.len() && writes_field(
                #[trigger] before[j],
                frame,
                field,
                params[i],
            );
        assert(all[j] == before[j]);
    }
}

/// What precedes a suspension stays in its block, in order. What follows goes on in a
/// block of its own, which receives what the suspension gives and holds nothing yet. No
/// other block that was there changes.
pub proof fn a_suspension_parts_its_block(
    e: Expansion,
    context: Context,
    values: Seq<TyView>,
    block: BlockId,
    insts: Seq<InstView>,
    from: nat,
    at: nat,
)
    requires
        from <= at < insts.len(),
        is_point(insts[at as int].kind),
        insts[at as int].result is Some,
        block.0 < e.b.function.blocks.len(),
        e.b.function.blocks.len() + 8 <= id_limit(),
        e.b.function.values.len() + 21 <= id_limit(),
    ensures
        ({
            let (after, post) = point_taken(e, context, values, block, insts, from, at);
            let was = e.b.function;
            let now = after.b.function;
            &&& post.0 == was.blocks.len()
            &&& now.block(post).params == seq![insts[at as int].result->Some_0]
            &&& now.block(post).insts.len() == 0
            &&& now.block(post).term is None
            &&& now.block(block).params == was.block(block).params
            &&& now.block(block).insts.len() >= at - from
            &&& now.block(block).insts.take(at - from) == insts.subrange(from as int, at as int)
            &&& insts[at as int].kind is Await ==> now.block(block).insts == insts.subrange(
                from as int,
                at as int,
            )
            &&& forall|id: BlockId|
                id.0 < was.blocks.len() && id != block ==> #[trigger] now.block(id) == was.block(id)
        }),
{
    reveal(BuilderView::contents);
    reveal(BuilderView::receive);
    reveal(BuilderView::open_block);
    reveal(BuilderView::switch_to);
    let inst = insts[at as int];
    let kept = insts.subrange(from as int, at as int);
    let b = e.b.contents(block, kept, None);
    let (b, post) = b.open_block();
    let b = b.receive(post, inst.result->0);
    let b = b.switch_to(block);
    assert(b.function.block(post).params =~= seq![inst.result->Some_0]);
    assert(b.function.block(block).insts == kept);
    match inst.kind {
        InstKindView::Await { task } => {
            let ty = awaited_completion(values[task.0 as int]);
            let state = e.cases.len() as u64;
            an_await_goes_on_only_with_a_completion(
                b,
                context.runtime,
                context.frame,
                context.me,
                task,
                ty,
                state,
                post,
            );
            let now = point_taken(e, context, values, block, insts, from, at).0.b.function;
            assert(now.block(block).insts.take(kept.len() as int) =~= now.block(block).insts);
        },
        _ => {
            a_cancellation_point_hands_on_what_is_due(b, context.me, post);
        },
    }
}

/// A function that was left at an await is resumed there: the state it stores is the one
/// whose case leads to the block that stops waiting, and that no other case has.
pub proof fn a_stored_state_resumes_where_it_was_stored(
    e: Expansion,
    context: Context,
    values: Seq<TyView>,
    block: BlockId,
    insts: Seq<InstView>,
    from: nat,
    at: nat,
    id: BlockId,
    stored: int,
    written: int,
)
    requires
        from <= at < insts.len(),
        insts[at as int].kind is Await,
        insts[at as int].result is Some,
        block.0 < e.b.function.blocks.len(),
        e.b.function.blocks.len() + 8 <= id_limit(),
        e.b.function.values.len() + 21 <= id_limit(),
        e.b.function.blocks.len() < id.0 <= e.b.function.blocks.len() + 7,
        forall|i: int| 0 <= i < e.cases.len() ==> (#[trigger] e.cases[i]).0 == i,
        e.cases.len() < u64::MAX,
    ensures
        ({
            let after = point_taken(e, context, values, block, insts, from, at).0;
            let now = after.b.function;
            let case = after.cases.last();
            let resumed = now.block(case.1.block);
            &&& after.cases.drop_last() == e.cases
            &&& forall|i: int| 0 <= i < e.cases.len() ==> (#[trigger] e.cases[i]).0 != case.0
            &&& case.1.args.len() == 0
            &&& after.awaited.last() == insts[at as int].kind->Await_task
            &&& after.resumes.last() == case.1.block
            &&& resumed.insts[1].kind == (InstKindView::SetField {
                object: context.me,
                field: WAITING,
                value: given(resumed, 0),
            })
            &&& 0 <= stored < now.block(id).insts.len() && 0 <= written < now.block(id).insts.len()
                && now.block(id).insts[written].kind == (InstKindView::SetField {
                object: context.frame,
                field: STATE,
                value: given(now.block(id), stored),
            }) && context.frame != context.me ==> (
            now.block(id).insts[stored].kind matches InstKindView::Const(ConstView::Int(state))
                ==> state == case.0)
        }),
{
    reveal(BuilderView::contents);
    reveal(BuilderView::receive);
    reveal(BuilderView::open_block);
    reveal(BuilderView::switch_to);
    let inst = insts[at as int];
    let b = e.b.contents(block, insts.subrange(from as int, at as int), None);
    let (b, post) = b.open_block();
    let b = b.receive(post, inst.result->0);
    let b = b.switch_to(block);
    let task = inst.kind->Await_task;
    an_await_goes_on_only_with_a_completion(
        b,
        context.runtime,
        context.frame,
        context.me,
        task,
        awaited_completion(values[task.0 as int]),
        e.cases.len() as u64,
        post,
    );
    let after = point_taken(e, context, values, block, insts, from, at).0;
    assert(after.cases.drop_last() =~= e.cases);
    let which: int = id.0 - b.function.blocks.len();
    assert(which == 0 || which == 1 || which == 2 || which == 3 || which == 4 || which == 5
        || which == 6);
}

/// Where no suspension is left, the rest of the instructions and the end of the block go
/// on where the last one left off.
pub proof fn what_follows_the_last_suspension_goes_on(
    e: Expansion,
    context: Context,
    values: Seq<TyView>,
    block: BlockId,
    insts: Seq<InstView>,
    from: nat,
    term: Option<TerminatorView>,
)
    requires
        from <= insts.len(),
        block.0 < e.b.function.blocks.len(),
        forall|i: int| from <= i < insts.len() ==> !is_point((#[trigger] insts[i]).kind),
    ensures
        ({
            let now = block_expanded(e, context, values, block, insts, from, term).b.function;
            &&& now.block(block).insts == insts.skip(from as int)
            &&& now.block(block).term == term
            &&& now.block(block).params == e.b.function.block(block).params
        }),
{
    reveal(BuilderView::contents);
    no_point_is_left(insts, from);
}

proof fn no_point_is_left(insts: Seq<InstView>, from: nat)
    requires
        forall|i: int| from <= i < insts.len() ==> !is_point((#[trigger] insts[i]).kind),
    ensures
        point_from(insts, from) is None,
    decreases insts.len() - from,
{
    if from < insts.len() {
        no_point_is_left(insts, from + 1);
    }
}

/// A return hands what it gives back to the block that completes the task, and every
/// other end stays.
pub proof fn a_return_completes_the_task(term: TerminatorView, finish: BlockId)
    ensures
        match term {
            TerminatorView::Return(value) => completing(Some(term), finish) matches Some(
                TerminatorView::Jump(to),
            ) && to.block == finish && to.args == seq![value],
            _ => completing(Some(term), finish) == Some(term),
        },
{
}

/// A request to cancel becomes a call of the runtime: it is handed the task that is to
/// stop, erased, and then the reason. Every other instruction stays, and all stay in
/// order.
pub proof fn a_request_becomes_a_call(
    function: FunctionView,
    cancel: FuncId,
    insts: Seq<InstView>,
    i: int,
    count: nat,
)
    requires
        0 <= i < count <= insts.len(),
    ensures
        ({
            let before = requests_called(function, cancel, insts, i as nat).1.len() as int;
            let after = requests_called(function, cancel, insts, (i + 1) as nat).1.len() as int;
            let all = requests_called(function, cancel, insts, count).1;
            &&& after <= all.len()
            &&& match insts[i].kind {
                InstKindView::Cancel { task, error } => {
                    &&& after == before + 2
                    &&& all[before].kind == (InstKindView::MakeDyn { interface: None, value: task })
                    &&& all[before].result matches Some(boxed) && all[before + 1].kind == (
                    InstKindView::Call {
                        callee: cancel,
                        type_args: Seq::empty(),
                        args: seq![boxed, error],
                    })
                    &&& all[before].span == insts[i].span
                    &&& all[before + 1].span == insts[i].span
                },
                _ => after == before + 1 && all[before] == insts[i],
            }
        }),
    decreases count,
{
    if i < count - 1 {
        a_request_becomes_a_call(function, cancel, insts, i, (count - 1) as nat);
    }
}

} // verus!
