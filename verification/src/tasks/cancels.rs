//! Requests to stop a task, as calls of the runtime.

use vstd::prelude::*;

use crate::inst::{Inst, InstKind, InstKindView, InstView};
use crate::program::{
    id_limit, views, Block, BlockView, FuncId, Function, FunctionView, Program, ProgramView,
};
use crate::ty::{tys, Ty, TyView};

use crate::inst::two;

verus! {

/// The function with the first `count` of some instructions written anew: a
/// request becomes the runtime's, over the erased handle.
pub open spec fn requests_called(
    function: FunctionView,
    cancel: FuncId,
    insts: Seq<InstView>,
    count: nat,
) -> (FunctionView, Seq<InstView>)
    decreases count,
{
    if count == 0 {
        (function, Seq::empty())
    } else {
        let (held, before) = requests_called(function, cancel, insts, (count - 1) as nat);
        let inst = insts[count - 1];
        match inst.kind {
            InstKindView::Cancel { task, error } => {
                let boxed = held.next_value();
                let more = held.add_value(TyView::Dynamic);
                let unit = more.next_value();
                (
                    more.add_value(TyView::Unit),
                    before.push(
                        InstView {
                            result: Some(boxed),
                            kind: InstKindView::MakeDyn { interface: None, value: task },
                            span: inst.span,
                        },
                    ).push(
                        InstView {
                            result: Some(unit),
                            kind: InstKindView::Call {
                                callee: cancel,
                                type_args: Seq::empty(),
                                args: seq![boxed, error],
                            },
                            span: inst.span,
                        },
                    ),
                )
            },
            _ => (held, before.push(inst)),
        }
    }
}

/// The function with the first `count` blocks written anew.
pub open spec fn blocks_called(function: FunctionView, cancel: FuncId, count: nat) -> FunctionView
    decreases count,
{
    if count == 0 {
        function
    } else {
        let held = blocks_called(function, cancel, (count - 1) as nat);
        let block = held.blocks[count - 1];
        let (after, insts) = requests_called(held, cancel, block.insts, block.insts.len());
        FunctionView {
            blocks: after.blocks.update(count - 1, BlockView { insts, ..block }),
            ..after
        }
    }
}

/// The function asking the runtime to stop what it asked to stop itself.
pub open spec fn cancels_called(function: FunctionView, cancel: FuncId) -> FunctionView {
    blocks_called(function, cancel, function.blocks.len())
}

/// The program with every function asking the runtime.
pub open spec fn cancels_expanded(program: ProgramView, cancel: FuncId) -> ProgramView {
    ProgramView {
        functions: Seq::new(
            program.functions.len(),
            |i: int| cancels_called(program.functions[i], cancel),
        ),
        ..program
    }
}

proof fn requests_add(
    function: FunctionView,
    cancel: FuncId,
    insts: Seq<InstView>,
    first: nat,
    last: nat,
)
    requires
        first <= last,
    ensures
        ({
            let after = requests_called(function, cancel, insts, last).0;
            &&& after == (FunctionView { values: after.values, ..function })
            &&& function.values.len() <= requests_called(
                function,
                cancel,
                insts,
                first,
            ).0.values.len() <= after.values.len()
        }),
    decreases last,
{
    if first < last {
        requests_add(function, cancel, insts, first, (last - 1) as nat);
    } else if last > 0 {
        requests_add(function, cancel, insts, (last - 1) as nat, (last - 1) as nat);
    }
}

proof fn blocks_add(function: FunctionView, cancel: FuncId, first: nat, last: nat)
    requires
        first <= last <= function.blocks.len(),
    ensures
        ({
            let after = blocks_called(function, cancel, last);
            &&& after == (FunctionView {
                values: after.values,
                blocks: after.blocks,
                ..function
            })
            &&& after.blocks.len() == function.blocks.len()
            &&& function.values.len() <= blocks_called(function, cancel, first).values.len()
                <= after.values.len()
        }),
    decreases last,
{
    if last > 0 {
        if first < last {
            blocks_add(function, cancel, first, (last - 1) as nat);
        } else {
            blocks_add(function, cancel, (last - 1) as nat, (last - 1) as nat);
        }
        let held = blocks_called(function, cancel, (last - 1) as nat);
        let block = held.blocks[last - 1];
        requests_add(held, cancel, block.insts, 0, block.insts.len());
    }
}

/// No function asks for anything itself any more.
pub proof fn no_request_is_left(
    function: FunctionView,
    cancel: FuncId,
    insts: Seq<InstView>,
    count: nat,
    at: int,
)
    requires
        count <= insts.len(),
        0 <= at < requests_called(function, cancel, insts, count).1.len(),
    ensures
        !(requests_called(function, cancel, insts, count).1[at].kind is Cancel),
    decreases count,
{
    if count > 0 {
        let before = requests_called(function, cancel, insts, (count - 1) as nat).1;
        if at < before.len() {
            no_request_is_left(function, cancel, insts, (count - 1) as nat, at);
        }
    }
}

fn rewrite_block(function: &mut Function, cancel: FuncId, at: usize)
    requires
        at < old(function)@.blocks.len(),
        requests_called(
            old(function)@,
            cancel,
            old(function)@.blocks[at as int].insts,
            old(function)@.blocks[at as int].insts.len(),
        ).0.values.len() <= id_limit(),
    ensures
        ({
            let block = old(function)@.blocks[at as int];
            let (after, insts) = requests_called(
                old(function)@,
                cancel,
                block.insts,
                block.insts.len(),
            );
            final(function)@ == (FunctionView {
                blocks: after.blocks.update(at as int, BlockView { insts, ..block }),
                ..after
            })
        }),
{
    let ghost start = function@;
    let block = function.blocks[at].clone();
    let ghost insts = start.blocks[at as int].insts;
    let mut rebuilt: Vec<Inst> = Vec::new();
    let mut i: usize = 0;
    assert(views(rebuilt@) =~= Seq::empty());
    while i < block.insts.len()
        invariant
            i <= block.insts.len(),
            insts == block@.insts,
            requests_called(start, cancel, insts, insts.len()).0.values.len() <= id_limit(),
            (function@, views(rebuilt@)) == requests_called(start, cancel, insts, i as nat),
        decreases block.insts.len() - i,
    {
        proof {
            requests_add(start, cancel, insts, (i + 1) as nat, insts.len());
            assert(insts[i as int] == block.insts@[i as int]@);
        }
        let inst = &block.insts[i];
        let ghost before = rebuilt@;
        match &inst.kind {
            InstKind::Cancel { task, error } => {
                let boxed = function.add_value(Ty::Dynamic);
                let first = Inst {
                    result: Some(boxed),
                    kind: InstKind::MakeDyn { interface: None, value: *task },
                    span: inst.span,
                };
                let unit = function.add_value(Ty::Unit);
                let type_args: Vec<Ty> = Vec::new();
                assert(tys(type_args@) =~= Seq::empty());
                let second = Inst {
                    result: Some(unit),
                    kind: InstKind::Call {
                        callee: cancel,
                        type_args,
                        args: two(boxed, *error),
                    },
                    span: inst.span,
                };
                rebuilt.push(first);
                rebuilt.push(second);
                assert(views(rebuilt@) =~= views(before).push(first@).push(second@));
            },
            _ => {
                let kept = inst.clone();
                rebuilt.push(kept);
                assert(views(rebuilt@) =~= views(before).push(kept@));
            },
        }
        i += 1;
    }
    proof {
        requests_add(start, cancel, insts, 0, insts.len());
    }
    let ghost grown = function@;
    let finished = Block { params: block.params, insts: rebuilt, term: block.term };
    function.blocks.set(at, finished);
    assert(function@.blocks =~= grown.blocks.update(at as int, finished@));
}

fn rewrite(function: &mut Function, cancel: FuncId)
    requires
        cancels_called(old(function)@, cancel).values.len() <= id_limit(),
    ensures
        final(function)@ == cancels_called(old(function)@, cancel),
{
    let ghost start = function@;
    let mut b: usize = 0;
    while b < function.blocks.len()
        invariant
            b <= function.blocks.len() == start.blocks.len(),
            cancels_called(start, cancel).values.len() <= id_limit(),
            function@ == blocks_called(start, cancel, b as nat),
        decreases function.blocks.len() - b,
    {
        proof {
            blocks_add(start, cancel, b as nat, b as nat);
            blocks_add(start, cancel, (b + 1) as nat, start.blocks.len());
        }
        rewrite_block(function, cancel, b);
        proof {
            blocks_add(start, cancel, (b + 1) as nat, (b + 1) as nat);
        }
        b += 1;
    }
}

/// Turns every request to stop a task, in an asynchronous function or not, into
/// the runtime's.
pub fn expand_cancels(program: &mut Program, cancel: FuncId)
    requires
        forall|i: int|
            0 <= i < old(program)@.functions.len() ==> cancels_called(
                #[trigger] old(program)@.functions[i],
                cancel,
            ).values.len() <= id_limit(),
    ensures
        final(program)@ == cancels_expanded(old(program)@, cancel),
{
    let ghost start = program@;
    let mut functions: Vec<Function> = Vec::new();
    let mut i: usize = 0;
    while i < program.functions.len()
        invariant
            i <= program.functions.len(),
            program@ == start,
            functions@.len() == i,
            forall|k: int|
                0 <= k < start.functions.len() ==> cancels_called(
                    #[trigger] start.functions[k],
                    cancel,
                ).values.len() <= id_limit(),
            forall|k: int|
                0 <= k < i ==> (#[trigger] functions@[k])@ == cancels_called(
                    start.functions[k],
                    cancel,
                ),
        decreases program.functions.len() - i,
    {
        assert(start.functions[i as int] == program.functions@[i as int]@);
        let mut function = program.functions[i].clone();
        rewrite(&mut function, cancel);
        functions.push(function);
        i += 1;
    }
    program.functions = functions;
    assert(program@.functions =~= cancels_expanded(start, cancel).functions);
}

} // verus!
