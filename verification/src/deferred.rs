//! Deferred task calls and shared completions: a call whose task is built where
//! it is made is moved into a thunk, which runs once the completion is asked
//! for.

use vstd::prelude::*;

use crate::inst::{
    one, two,
    values_within, Const, ConstView, Inst, InstKind, InstKindView, InstView, Value,
};
use crate::program::{
    id_limit, views, Block, BlockId, BlockView, FuncId, Function, FunctionView, Program,
    ProgramView,
};
use crate::span::Span;
use crate::tasks::builder::{Builder, BuilderView};
use crate::tasks::{one_ty, optional_of, optional_of_view};
use crate::text::{decimal, number};
use crate::ty::{tys, Builtin, Ty, TyView};

verus! {

/// A task built where its call is made: what it is called, what completes it,
/// what it results in, and where it stands.
pub struct Pending {
    pub task: Value,
    pub completion: Value,
    pub result: Ty,
    pub span: Span,
}

/// A [`Pending`] with its type as a mathematical value.
pub struct PendingView {
    pub task: Value,
    pub completion: Value,
    pub result: TyView,
    pub span: Span,
}

impl View for Pending {
    type V = PendingView;

    open spec fn view(&self) -> PendingView {
        PendingView {
            task: self.task,
            completion: self.completion,
            result: self.result@,
            span: self.span,
        }
    }
}

/// The task an instruction builds of a completion alone, if it does.
pub open spec fn pending_of(inst: InstView) -> Option<PendingView> {
    match inst.kind {
        InstKindView::MakeStruct { ty: TyView::Builtin { kind: Builtin::Task, args }, fields, .. } => {
            if args.len() == 1 && fields.len() == 1 {
                Some(
                    PendingView {
                        task: inst.result->0,
                        completion: fields[0],
                        result: args[0],
                        span: inst.span,
                    },
                )
            } else {
                None
            }
        },
        _ => None,
    }
}

/// The tasks the first `count` instructions build that way.
pub open spec fn all_pending(insts: Seq<InstView>, count: nat) -> Seq<PendingView>
    decreases count,
{
    if count == 0 {
        Seq::empty()
    } else {
        let before = all_pending(insts, (count - 1) as nat);
        match pending_of(insts[count - 1]) {
            Some(found) => before.push(found),
            None => before,
        }
    }
}

/// Where the instruction sits that produces `value`, from `from` on.
pub open spec fn producer_from(insts: Seq<InstView>, value: Value, from: nat) -> Option<nat>
    decreases insts.len() - from,
{
    if from >= insts.len() {
        None
    } else if insts[from as int].result == Some(value) {
        Some(from)
    } else {
        producer_from(insts, value, from + 1)
    }
}

/// Where the instruction sits that produces `value`.
pub open spec fn producer(insts: Seq<InstView>, value: Value) -> Option<nat> {
    producer_from(insts, value, 0)
}

/// What completes a task, taken out of the instructions: what produces the
/// completion, the call that it wraps where it wraps one, and what is left.
pub open spec fn taken_out(insts: Seq<InstView>, completion: Value) -> (
    InstView,
    Option<InstView>,
    Seq<InstView>,
) {
    let at = producer(insts, completion)->0;
    let finish = insts[at as int];
    let rest = insts.remove(at as int);
    match finish.kind {
        InstKindView::MakeEnum { payload, .. } => {
            let inner = producer(rest, payload[0])->0;
            (finish, Some(rest[inner as int]), rest.remove(inner as int))
        },
        _ => (finish, None, rest),
    }
}

/// Whether an instruction is a call.
pub open spec fn is_call(kind: InstKindView) -> bool {
    kind is Call || kind is CallIndirect || kind is CallVirtual
}

/// The type of the thunk of a call that results in `result`.
pub open spec fn thunk_type_view(result: TyView) -> TyView {
    TyView::Function { asynchronous: false, params: Seq::empty(), result: Box::new(result) }
}

/// Reads the first `count` captures from the closure the thunk is.
pub open spec fn captures_read(
    b: BuilderView,
    types: Seq<TyView>,
    captures: Seq<Value>,
    count: nat,
) -> (BuilderView, Seq<Value>)
    decreases count,
{
    if count == 0 {
        (b, Seq::empty())
    } else {
        let (b, held) = captures_read(b, types, captures, (count - 1) as nat);
        let (b, value) = b.get(Value(0), count as u32, types[captures[count - 1].0 as int]);
        (b, held.push(value))
    }
}

/// What was read last of the first `count` captures for `wanted`; `wanted`
/// itself where it is none of them.
pub open spec fn last_read(
    captures: Seq<Value>,
    held: Seq<Value>,
    wanted: Value,
    count: nat,
) -> Value
    decreases count,
{
    if count == 0 {
        wanted
    } else if captures[count - 1] == wanted {
        held[count - 1]
    } else {
        last_read(captures, held, wanted, (count - 1) as nat)
    }
}

/// What a call reads in the thunk.
pub open spec fn thunk_operands(captures: Seq<Value>, held: Seq<Value>) -> Seq<Value> {
    Seq::new(captures.len(), |i: int| last_read(captures, held, captures[i], captures.len()))
}

/// The thunk that makes the call and completes the task.
pub open spec fn thunk_of(
    function: FunctionView,
    pending: PendingView,
    finish: InstView,
    call: Option<InstView>,
) -> FunctionView {
    let made = match call {
        Some(inner) => inner.kind,
        None => finish.kind,
    };
    let captures = made.operands();
    let completion_ty = function.type_of(pending.completion);
    let fresh = FunctionView::fresh(
        function.name + "#task"@ + decimal(pending.task.0 as nat),
        seq![thunk_type_view(pending.result)],
        completion_ty,
        pending.span,
    );
    let b = BuilderView { function: fresh, current: BlockId(0), span: pending.span };
    let (b, held) = captures_read(b, function.values, captures, captures.len());
    let made = made.with_operands(thunk_operands(captures, held));
    let (b, ended) = match call {
        Some(inner) => {
            let (b, value) = b.put(made, function.type_of(inner.result->0));
            b.put(first_payload(finish.kind, value), completion_ty)
        },
        None => b.put(made, completion_ty),
    };
    b.ret(ended).function
}

/// A variant with another first payload.
pub open spec fn first_payload(kind: InstKindView, value: Value) -> InstKindView {
    match kind {
        InstKindView::MakeEnum { ty, variant, payload } => InstKindView::MakeEnum {
            ty,
            variant,
            payload: payload.update(0, value),
        },
        _ => kind,
    }
}

/// The task built of the closure and of nothing completed yet.
pub open spec fn task_fields_replaced(inst: InstView, closure: Value, empty: Value) -> InstView {
    match inst.kind {
        InstKindView::MakeStruct { ty, allocation, .. } => InstView {
            kind: InstKindView::MakeStruct { ty, fields: seq![closure, empty], allocation },
            ..inst
        },
        _ => inst,
    }
}

/// The instructions with the closure and nothing made just before the task at
/// `at` is built of them.
pub open spec fn thunk_spliced(
    insts: Seq<InstView>,
    at: int,
    closure: Value,
    empty: Value,
    func: FuncId,
    captures: Seq<Value>,
    span: Span,
) -> Seq<InstView> {
    insts.take(at) + seq![
        InstView {
            result: Some(closure),
            kind: InstKindView::MakeClosure { func, captures },
            span,
        },
        InstView { result: Some(empty), kind: InstKindView::Const(ConstView::Nil), span },
        task_fields_replaced(insts[at], closure, empty),
    ] + insts.skip(at + 1)
}

/// One call deferred: the program with its thunk, and the instructions with the
/// task built of that.
pub open spec fn deferred(
    program: ProgramView,
    id: FuncId,
    insts: Seq<InstView>,
    pending: PendingView,
) -> (ProgramView, Seq<InstView>) {
    let function = program.function(id);
    let (finish, call, rest) = taken_out(insts, pending.completion);
    let made = match call {
        Some(inner) => inner.kind,
        None => finish.kind,
    };
    let thunk = thunk_of(function, pending, finish, call);
    let closure = function.next_value();
    let more = function.add_value(thunk_type_view(pending.result));
    let empty = more.next_value();
    let more = more.add_value(optional_of_view(function.type_of(pending.completion)));
    let at = producer(rest, pending.task)->0;
    (
        program.add_function(thunk).with_function(id, more),
        thunk_spliced(
            rest,
            at as int,
            closure,
            empty,
            program.next_function(),
            made.operands(),
            pending.span,
        ),
    )
}

/// Whether a call can be deferred: the completion is made by a call, or wraps
/// what one gives, and comes from these instructions, as the task does.
pub open spec fn can_defer(
    program: ProgramView,
    id: FuncId,
    insts: Seq<InstView>,
    pending: PendingView,
) -> bool {
    let function = program.function(id);
    let (finish, call, rest) = taken_out(insts, pending.completion);
    let made = match call {
        Some(inner) => inner.kind,
        None => finish.kind,
    };
    &&& producer(insts, pending.completion) is Some
    &&& finish.kind matches InstKindView::MakeEnum { payload, .. } ==> payload.len() > 0
        && producer(insts.remove(producer(insts, pending.completion)->0 as int), payload[0]) is Some
    &&& is_call(made)
    &&& values_within(made.operands(), function.values.len())
    &&& pending.completion.0 < function.values.len()
    &&& call matches Some(inner) ==> inner.result is Some && (inner.result->0).0
        < function.values.len()
    &&& producer(rest, pending.task) is Some
    &&& rest[producer(rest, pending.task)->0 as int].kind is MakeStruct
    &&& made.operands().len() + 4 <= id_limit()
    &&& function.values.len() + 2 <= id_limit()
    &&& program.functions.len() < id_limit()
}

/// The first `count` of some calls deferred, one after another.
pub open spec fn tasks_deferred(
    program: ProgramView,
    id: FuncId,
    insts: Seq<InstView>,
    tasks: Seq<PendingView>,
    count: nat,
) -> (ProgramView, Seq<InstView>)
    decreases count,
{
    if count == 0 {
        (program, insts)
    } else {
        let (held, left) = tasks_deferred(program, id, insts, tasks, (count - 1) as nat);
        deferred(held, id, left, tasks[count - 1])
    }
}

/// Every call of a block deferred.
pub open spec fn block_deferred(program: ProgramView, id: FuncId, block: int) -> ProgramView {
    let insts = program.function(id).blocks[block].insts;
    let tasks = all_pending(insts, insts.len());
    let (after, left) = tasks_deferred(program, id, insts, tasks, tasks.len());
    let function = after.function(id);
    after.with_function(
        id,
        FunctionView {
            blocks: function.blocks.update(
                block,
                BlockView { insts: left, ..function.blocks[block] },
            ),
            ..function
        },
    )
}

/// Whether every call of a block can be deferred in turn.
pub open spec fn can_defer_block(program: ProgramView, id: FuncId, block: int) -> bool {
    let insts = program.function(id).blocks[block].insts;
    let tasks = all_pending(insts, insts.len());
    &&& forall|i: int|
        0 <= i < insts.len() && pending_of(#[trigger] insts[i]) is Some ==> insts[i].result is Some
    &&& forall|k: nat|
        k < tasks.len() ==> can_defer(
            (#[trigger] tasks_deferred(program, id, insts, tasks, k)).0,
            id,
            tasks_deferred(program, id, insts, tasks, k).1,
            tasks[k as int],
        )
}

/// The first `count` blocks of a function with their calls deferred.
pub open spec fn blocks_deferred(program: ProgramView, id: FuncId, count: nat) -> ProgramView
    decreases count,
{
    if count == 0 {
        program
    } else {
        block_deferred(blocks_deferred(program, id, (count - 1) as nat), id, count - 1)
    }
}

/// The functions with a body of their own among the first `count`.
pub open spec fn instances(functions: Seq<FunctionView>, count: nat) -> Seq<FuncId>
    decreases count,
{
    if count == 0 {
        Seq::empty()
    } else {
        let before = instances(functions, (count - 1) as nat);
        if functions[count - 1].type_params.len() == 0 {
            before.push(FuncId((count - 1) as u32))
        } else {
            before
        }
    }
}

/// The first `count` of some functions with their calls deferred.
pub open spec fn functions_deferred(
    program: ProgramView,
    ids: Seq<FuncId>,
    count: nat,
) -> ProgramView
    decreases count,
{
    if count == 0 {
        program
    } else {
        let held = functions_deferred(program, ids, (count - 1) as nat);
        blocks_deferred(held, ids[count - 1], held.function(ids[count - 1]).blocks.len())
    }
}

/// Whether every call of every function can be deferred in turn.
pub open spec fn can_defer_all(program: ProgramView) -> bool {
    let ids = instances(program.functions, program.functions.len());
    &&& program.functions.len() <= id_limit()
    &&& forall|k: nat, b: nat|
        k < ids.len() && b < functions_deferred(program, ids, k).function(
            ids[k as int],
        ).blocks.len() ==> can_defer_block(
            #[trigger] blocks_deferred(functions_deferred(program, ids, k), ids[k as int], b),
            ids[k as int],
            b as int,
        )
}

proof fn one_keeps(program: ProgramView, id: FuncId, insts: Seq<InstView>, pending: PendingView)
    requires
        id.0 < program.functions.len(),
    ensures
        ({
            let after = deferred(program, id, insts, pending).0;
            &&& after.functions.len() == program.functions.len() + 1
            &&& after.function(id).blocks == program.function(id).blocks
        }),
{
}

proof fn several_keep(
    program: ProgramView,
    id: FuncId,
    insts: Seq<InstView>,
    tasks: Seq<PendingView>,
    count: nat,
)
    requires
        id.0 < program.functions.len(),
    ensures
        ({
            let after = tasks_deferred(program, id, insts, tasks, count).0;
            &&& after.functions.len() == program.functions.len() + count
            &&& after.function(id).blocks == program.function(id).blocks
        }),
    decreases count,
{
    if count > 0 {
        several_keep(program, id, insts, tasks, (count - 1) as nat);
        let (held, left) = tasks_deferred(program, id, insts, tasks, (count - 1) as nat);
        one_keeps(held, id, left, tasks[count - 1]);
    }
}

proof fn blocks_keep(program: ProgramView, id: FuncId, count: nat)
    requires
        id.0 < program.functions.len(),
        count <= program.function(id).blocks.len(),
    ensures
        ({
            let after = blocks_deferred(program, id, count);
            &&& after.functions.len() >= program.functions.len()
            &&& after.function(id).blocks.len() == program.function(id).blocks.len()
        }),
    decreases count,
{
    if count > 0 {
        blocks_keep(program, id, (count - 1) as nat);
        let held = blocks_deferred(program, id, (count - 1) as nat);
        let insts = held.function(id).blocks[count - 1].insts;
        let tasks = all_pending(insts, insts.len());
        several_keep(held, id, insts, tasks, tasks.len());
    }
}

proof fn functions_keep(program: ProgramView, ids: Seq<FuncId>, count: nat)
    requires
        count <= ids.len(),
        forall|k: int| 0 <= k < ids.len() ==> (#[trigger] ids[k]).0 < program.functions.len(),
    ensures
        functions_deferred(program, ids, count).functions.len() >= program.functions.len(),
    decreases count,
{
    if count > 0 {
        functions_keep(program, ids, (count - 1) as nat);
        let held = functions_deferred(program, ids, (count - 1) as nat);
        blocks_keep(held, ids[count - 1], held.function(ids[count - 1]).blocks.len());
    }
}

proof fn instances_are_there(functions: Seq<FunctionView>, count: nat, at: int)
    requires
        count <= functions.len() <= id_limit(),
        0 <= at < instances(functions, count).len(),
    ensures
        instances(functions, count)[at].0 < count,
    decreases count,
{
    if count > 0 {
        let before = instances(functions, (count - 1) as nat);
        if at < before.len() {
            instances_are_there(functions, (count - 1) as nat, at);
        }
    }
}

proof fn producer_is_there(insts: Seq<InstView>, value: Value, from: nat)
    ensures
        producer_from(insts, value, from) matches Some(at) ==> from <= at < insts.len()
            && insts[at as int].result == Some(value),
    decreases insts.len() - from,
{
    if from < insts.len() {
        producer_is_there(insts, value, from + 1);
    }
}

/// A block that builds no task stays as it is.
pub proof fn nothing_to_defer(insts: Seq<InstView>, count: nat)
    requires
        count <= insts.len(),
        forall|i: int| 0 <= i < insts.len() ==> pending_of(#[trigger] insts[i]) is None,
    ensures
        all_pending(insts, count).len() == 0,
    decreases count,
{
    if count > 0 {
        nothing_to_defer(insts, (count - 1) as nat);
    }
}

fn find_producer(insts: &Vec<Inst>, value: Value) -> (found: usize)
    requires
        producer(views(insts@), value) is Some,
    ensures
        producer(views(insts@), value) == Some(found as nat),
        found < insts@.len(),
{
    let mut i: usize = 0;
    while i < insts.len()
        invariant
            i <= insts.len(),
            producer(views(insts@), value) is Some,
            producer(views(insts@), value) == producer_from(views(insts@), value, i as nat),
        decreases insts.len() - i,
    {
        assert(views(insts@)[i as int] == insts@[i as int]@);
        if let Some(result) = insts[i].result {
            if result == value {
                return i;
            }
        }
        i += 1;
    }
    proof {
        assert(false);
    }
    i
}

fn find_pending(insts: &Vec<Inst>) -> (found: Vec<Pending>)
    requires
        forall|i: int|
            0 <= i < insts@.len() && pending_of((#[trigger] insts@[i])@) is Some
                ==> insts@[i]@.result is Some,
    ensures
        views(found@) == all_pending(views(insts@), insts@.len()),
{
    let mut found: Vec<Pending> = Vec::new();
    let mut i: usize = 0;
    assert(views(found@) =~= Seq::empty());
    while i < insts.len()
        invariant
            i <= insts.len(),
            forall|i: int|
                0 <= i < insts@.len() && pending_of((#[trigger] insts@[i])@) is Some
                    ==> insts@[i]@.result is Some,
            views(found@) == all_pending(views(insts@), i as nat),
        decreases insts.len() - i,
    {
        let inst = &insts[i];
        assert(views(insts@)[i as int] == inst@);
        match one_pending(inst) {
            Some(pending) => {
                let ghost before = found@;
                found.push(pending);
                assert(views(found@) =~= views(before).push(pending@));
            },
            None => {},
        }
        i += 1;
    }
    found
}

fn one_pending(inst: &Inst) -> (found: Option<Pending>)
    requires
        pending_of(inst@) is Some ==> inst@.result is Some,
    ensures
        match found {
            Some(pending) => pending_of(inst@) == Some(pending@),
            None => pending_of(inst@) is None,
        },
{
    match &inst.kind {
        InstKind::MakeStruct { ty, fields, .. } => match ty {
            Ty::Builtin { kind, args } => {
                assert(ty@ == TyView::Builtin { kind: *kind, args: tys(args@) });
                if *kind == Builtin::Task && args.len() == 1 && fields.len() == 1 {
                    assert(tys(args@)[0] == args@[0]@);
                    match inst.result {
                        Some(task) => Some(
                            Pending {
                                task,
                                completion: fields[0],
                                result: args[0].clone(),
                                span: inst.span,
                            },
                        ),
                        None => None,
                    }
                } else {
                    None
                }
            },
            _ => None,
        },
        _ => None,
    }
}

fn take_inst(insts: &mut Vec<Inst>, at: usize) -> (inst: Inst)
    requires
        at < old(insts)@.len(),
    ensures
        inst@ == views(old(insts)@)[at as int],
        views(final(insts)@) == views(old(insts)@).remove(at as int),
{
    let ghost before = insts@;
    let inst = insts.remove(at);
    assert(views(insts@) =~= views(before).remove(at as int));
    inst
}

fn thunk_type(result: &Ty) -> (ty: Ty)
    ensures
        ty@ == thunk_type_view(result@),
{
    let params: Vec<Ty> = Vec::new();
    assert(tys(params@) =~= Seq::empty());
    Ty::Function { asynchronous: false, params, result: Box::new(result.clone()) }
}

fn read_captures(b: &mut Builder, function: &Function, captures: &Vec<Value>) -> (held: Vec<Value>)
    requires
        values_within(captures@, function@.values.len()),
        old(b)@.function.values.len() + captures@.len() <= id_limit(),
        old(b)@.current.0 < old(b)@.function.blocks.len(),
    ensures
        (final(b)@, held@) == captures_read(
            old(b)@,
            function@.values,
            captures@,
            captures@.len(),
        ),
        held@.len() == captures@.len(),
        final(b)@.function.values.len() == old(b)@.function.values.len() + captures@.len(),
        final(b)@.function.blocks.len() == old(b)@.function.blocks.len(),
        final(b)@.current == old(b)@.current,
{
    let ghost start = b@;
    let mut held: Vec<Value> = Vec::new();
    let mut i: usize = 0;
    assert(held@ =~= Seq::empty());
    while i < captures.len()
        invariant
            i <= captures.len(),
            held@.len() == i,
            values_within(captures@, function@.values.len()),
            start.function.values.len() + captures@.len() <= id_limit(),
            start.current.0 < start.function.blocks.len(),
            (b@, held@) == captures_read(start, function@.values, captures@, i as nat),
            b@.function.values.len() == start.function.values.len() + i,
            b@.function.blocks.len() == start.function.blocks.len(),
            b@.current == start.current,
        decreases captures.len() - i,
    {
        let ty = function.type_of(captures[i]).clone();
        let value = b.get(Value(0), (i + 1) as u32, ty);
        held.push(value);
        i += 1;
    }
    held
}

fn last_of(captures: &Vec<Value>, held: &Vec<Value>, wanted: Value) -> (value: Value)
    requires
        held@.len() == captures@.len(),
    ensures
        value == last_read(captures@, held@, wanted, captures@.len()),
{
    let mut i: usize = captures.len();
    while i > 0
        invariant
            i <= captures.len(),
            held@.len() == captures@.len(),
            last_read(captures@, held@, wanted, captures@.len()) == last_read(
                captures@,
                held@,
                wanted,
                i as nat,
            ),
        decreases i,
    {
        if captures[i - 1] == wanted {
            return held[i - 1];
        }
        i -= 1;
    }
    wanted
}

fn operands_in_thunk(captures: &Vec<Value>, held: &Vec<Value>) -> (operands: Vec<Value>)
    requires
        held@.len() == captures@.len(),
    ensures
        operands@ == thunk_operands(captures@, held@),
{
    let mut operands: Vec<Value> = Vec::new();
    let mut i: usize = 0;
    while i < captures.len()
        invariant
            i <= captures.len(),
            held@.len() == captures@.len(),
            operands@.len() == i,
            forall|k: int| 0 <= k < i ==> operands@[k] == thunk_operands(captures@, held@)[k],
        decreases captures.len() - i,
    {
        operands.push(last_of(captures, held, captures[i]));
        i += 1;
    }
    assert(operands@ =~= thunk_operands(captures@, held@));
    operands
}

fn with_first_payload(kind: InstKind, value: Value) -> (changed: InstKind)
    requires
        kind@ matches InstKindView::MakeEnum { payload, .. } ==> payload.len() > 0,
    ensures
        changed@ == first_payload(kind@, value),
{
    match kind {
        InstKind::MakeEnum { ty, variant, payload } => {
            let mut payload = payload;
            payload.set(0, value);
            InstKind::MakeEnum { ty, variant, payload }
        },
        other => other,
    }
}

fn write_thunk(
    function: &Function,
    pending: &Pending,
    finish: Inst,
    call: Option<Inst>,
    captures: &Vec<Value>,
) -> (thunk: Function)
    requires
        captures@ == (match call {
            Some(inner) => inner@.kind.operands(),
            None => finish@.kind.operands(),
        }),
        values_within(captures@, function@.values.len()),
        captures@.len() + 4 <= id_limit(),
        pending.completion.0 < function@.values.len(),
        call matches Some(inner) ==> inner@.result is Some && (inner@.result->0).0
            < function@.values.len(),
        call is Some ==> finish@.kind is MakeEnum && finish@.kind->MakeEnum_payload.len() > 0,
    ensures
        thunk@ == thunk_of(
            function@,
            pending@,
            finish@,
            match call {
                Some(inner) => Some(inner@),
                None => None,
            },
        ),
{
    let completion_ty = function.type_of(pending.completion).clone();
    let mut name = function.name.clone();
    name.append("#task");
    name.append(number(pending.task.0 as u64).as_str());
    let params = one_ty(thunk_type(&pending.result));
    assert(params@.len() == tys(params@).len());
    let fresh = Function::new(name, params, completion_ty.clone(), pending.span);
    let mut b = Builder::new(fresh, BlockId(0), pending.span);
    let held = read_captures(&mut b, function, captures);
    let operands = operands_in_thunk(captures, &held);
    let ended = match call {
        Some(inner) => {
            let made = inner.kind.with_operands(&operands);
            let ty = match inner.result {
                Some(result) => function.type_of(result).clone(),
                None => completion_ty.clone(),
            };
            let value = b.emit(made, ty);
            b.emit(with_first_payload(finish.kind, value), completion_ty)
        },
        None => {
            let made = finish.kind.with_operands(&operands);
            b.emit(made, completion_ty)
        },
    };
    b.ret(ended);
    b.finish()
}

fn splice_thunk(
    insts: Vec<Inst>,
    at: usize,
    closure: Value,
    empty: Value,
    func: FuncId,
    captures: Vec<Value>,
    span: Span,
) -> (changed: Vec<Inst>)
    requires
        at < insts@.len(),
        insts@[at as int]@.kind is MakeStruct,
    ensures
        views(changed@) == thunk_spliced(
            views(insts@),
            at as int,
            closure,
            empty,
            func,
            captures@,
            span,
        ),
{
    let mut insts = insts;
    let ghost before = views(insts@);
    let mut rest = insts.split_off(at);
    assert(views(rest@) =~= before.skip(at as int));
    assert(views(insts@) =~= before.take(at as int));
    let task = take_inst(&mut rest, 0);
    assert(views(rest@) =~= before.skip(at + 1));
    let first = Inst {
        result: Some(closure),
        kind: InstKind::MakeClosure { func, captures },
        span,
    };
    let second = Inst { result: Some(empty), kind: InstKind::Const(Const::Nil), span };
    let third = Inst {
        result: task.result,
        kind: match task.kind {
            InstKind::MakeStruct { ty, fields: _, allocation } => InstKind::MakeStruct {
                ty,
                fields: two(closure, empty),
                allocation,
            },
            other => other,
        },
        span: task.span,
    };
    insts.push(first);
    insts.push(second);
    insts.push(third);
    let ghost left = rest@;
    insts.append(&mut rest);
    assert(views(insts@) =~= thunk_spliced(
        before,
        at as int,
        closure,
        empty,
        func,
        captures@,
        span,
    )) by {
        assert(views(insts@) =~= before.take(at as int) + seq![first@, second@, third@] + views(
            left,
        ));
    }
    insts
}

fn defer_one(program: &mut Program, id: FuncId, insts: Vec<Inst>, pending: &Pending) -> (left: Vec<
    Inst,
>)
    requires
        id.0 < old(program)@.functions.len(),
        can_defer(old(program)@, id, views(insts@), pending@),
    ensures
        (final(program)@, views(left@)) == deferred(old(program)@, id, views(insts@), pending@),
{
    let ghost start = program@;
    let ghost whole = views(insts@);
    let mut insts = insts;
    let at = find_producer(&insts, pending.completion);
    let finish = take_inst(&mut insts, at);
    let call = match &finish.kind {
        InstKind::MakeEnum { payload, .. } => {
            let inner = find_producer(&insts, payload[0]);
            Some(take_inst(&mut insts, inner))
        },
        _ => None,
    };
    let captures = match &call {
        Some(inner) => inner.kind.operands(),
        None => finish.kind.operands(),
    };
    assert((finish@, (match call {
        Some(inner) => Some(inner@),
        None => None,
    }), views(insts@)) == taken_out(whole, pending.completion));
    let function = program.function(id);
    let completion_ty = function.type_of(pending.completion).clone();
    let thunk = write_thunk(function, pending, finish, call, &captures);
    let func = program.add_function(thunk);
    let held = program.function_mut(id);
    let closure = held.add_value(thunk_type(&pending.result));
    let empty = held.add_value(optional_of(completion_ty));
    let at = find_producer(&insts, pending.task);
    let left = splice_thunk(insts, at, closure, empty, func, captures, pending.span);
    assert(program@ =~= deferred(start, id, whole, pending@).0);
    left
}

fn defer_block(program: &mut Program, id: FuncId, block: usize)
    requires
        id.0 < old(program)@.functions.len(),
        block < old(program)@.function(id).blocks.len(),
        can_defer_block(old(program)@, id, block as int),
    ensures
        final(program)@ == block_deferred(old(program)@, id, block as int),
{
    let ghost start = program@;
    let held = program.function(id).blocks[block].clone();
    let ghost whole = start.function(id).blocks[block as int].insts;
    assert(held@.insts == whole);
    assert forall|i: int|
        0 <= i < held.insts@.len() && pending_of(
            (#[trigger] held.insts@[i])@,
        ) is Some implies held.insts@[i]@.result is Some by {
        assert(whole[i] == held.insts@[i]@);
    }
    let tasks = find_pending(&held.insts);
    let mut insts = held.insts;
    let mut k: usize = 0;
    while k < tasks.len()
        invariant
            k <= tasks.len(),
            id.0 < start.functions.len(),
            views(tasks@) == all_pending(whole, whole.len()),
            forall|k: nat|
                k < views(tasks@).len() ==> can_defer(
                    (#[trigger] tasks_deferred(start, id, whole, views(tasks@), k)).0,
                    id,
                    tasks_deferred(start, id, whole, views(tasks@), k).1,
                    views(tasks@)[k as int],
                ),
            (program@, views(insts@)) == tasks_deferred(
                start,
                id,
                whole,
                views(tasks@),
                k as nat,
            ),
        decreases tasks.len() - k,
    {
        proof {
            several_keep(start, id, whole, views(tasks@), k as nat);
            let before = tasks_deferred(start, id, whole, views(tasks@), k as nat);
            assert(views(tasks@)[k as int] == tasks@[k as int]@);
            assert(can_defer(before.0, id, before.1, views(tasks@)[k as int]));
        }
        insts = defer_one(program, id, insts, &tasks[k]);
        k += 1;
    }
    proof {
        several_keep(start, id, whole, views(tasks@), k as nat);
    }
    let ghost after = program@;
    let function = program.function_mut(id);
    let kept = function.blocks[block].clone();
    let ghost blocks = function@.blocks;
    let changed = Block { params: kept.params, insts, term: kept.term };
    function.blocks.set(block, changed);
    assert(function@.blocks =~= blocks.update(block as int, changed@));
    assert(program@ =~= block_deferred(start, id, block as int));
}

fn find_instances(functions: &Vec<Function>) -> (ids: Vec<FuncId>)
    requires
        functions@.len() <= id_limit(),
    ensures
        ids@ == instances(views(functions@), functions@.len()),
{
    let mut ids: Vec<FuncId> = Vec::new();
    let mut i: usize = 0;
    assert(ids@ =~= Seq::empty());
    while i < functions.len()
        invariant
            i <= functions.len() <= id_limit(),
            ids@ == instances(views(functions@), i as nat),
        decreases functions.len() - i,
    {
        assert(views(functions@)[i as int] == functions@[i as int]@);
        if !functions[i].is_template() {
            ids.push(FuncId(i as u32));
        }
        i += 1;
    }
    ids
}

/// Defers the calls whose tasks are built where they are made. Runs after
/// monomorphization and before inlining.
pub fn run(program: &mut Program)
    requires
        can_defer_all(old(program)@),
    ensures
        final(program)@ == functions_deferred(
            old(program)@,
            instances(old(program)@.functions, old(program)@.functions.len()),
            instances(old(program)@.functions, old(program)@.functions.len()).len(),
        ),
{
    let ghost start = program@;
    let ids = find_instances(&program.functions);
    assert forall|k: int| 0 <= k < ids@.len() implies (#[trigger] ids@[k]).0
        < start.functions.len() by {
        instances_are_there(start.functions, start.functions.len(), k);
    }
    let mut k: usize = 0;
    while k < ids.len()
        invariant
            k <= ids.len(),
            ids@ == instances(start.functions, start.functions.len()),
            can_defer_all(start),
            forall|k: int| 0 <= k < ids@.len() ==> (#[trigger] ids@[k]).0 < start.functions.len(),
            program@ == functions_deferred(start, ids@, k as nat),
        decreases ids.len() - k,
    {
        let id = ids[k];
        let ghost held = program@;
        proof {
            functions_keep(start, ids@, k as nat);
        }
        let count: usize = program.function(id).blocks.len();
        let mut b: usize = 0;
        while b < count
            invariant
                b <= count,
                k < ids.len(),
                ids@ == instances(start.functions, start.functions.len()),
                can_defer_all(start),
                id == ids@[k as int],
                id.0 < held.functions.len(),
                held == functions_deferred(start, ids@, k as nat),
                count == held.function(id).blocks.len(),
                program@ == blocks_deferred(held, id, b as nat),
            decreases count - b,
        {
            proof {
                blocks_keep(held, id, b as nat);
                assert(can_defer_block(blocks_deferred(held, id, b as nat), id, b as int));
            }
            defer_block(program, id, b);
            b += 1;
        }
        k += 1;
    }
}

} // verus!
