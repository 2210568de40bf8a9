//! Keeping values in the frame of an asynchronous function.

use vstd::prelude::*;

use crate::inst::{
    case_views, push_values, values_within, within_grows, Inst, InstKind, InstKindView,
    InstView, Target, TargetView, Terminator, TerminatorView, Value,
};
use crate::program::{id_limit, views, Block, BlockView, Function, FunctionView};
use crate::span::Span;

verus! {

/// The field of the frame a value lives in, if it lives there.
pub open spec fn home(homes: Seq<Option<u32>>, value: Value) -> Option<u32> {
    if value.0 < homes.len() {
        homes[value.0 as int]
    } else {
        None
    }
}

/// Writing a value into a field of the frame.
pub open spec fn store(frame: Value, field: u32, value: Value, span: Span) -> InstView {
    InstView {
        result: None,
        kind: InstKindView::SetField { object: frame, field, value },
        span,
    }
}

/// Reading a field of the frame.
pub open spec fn load(frame: Value, field: u32, result: Value, span: Span) -> InstView {
    InstView {
        result: Some(result),
        kind: InstKindView::GetField { object: frame, field },
        span,
    }
}

/// Reads from the frame those of the first `count` values that live there, each
/// into a value of its own: the function with those values, the reads, and what
/// stands for each value.
pub open spec fn loaded(
    function: FunctionView,
    frame: Value,
    homes: Seq<Option<u32>>,
    values: Seq<Value>,
    span: Span,
    count: nat,
) -> (FunctionView, Seq<InstView>, Seq<Value>)
    decreases count,
{
    if count == 0 {
        (function, Seq::empty(), Seq::empty())
    } else {
        let (held, loads, new) = loaded(function, frame, homes, values, span, (count - 1) as nat);
        let value = values[count - 1];
        match home(homes, value) {
            Some(field) => (
                held.add_value(held.type_of(value)),
                loads.push(load(frame, field, held.next_value(), span)),
                new.push(held.next_value()),
            ),
            None => (held, loads, new.push(value)),
        }
    }
}

/// The write that keeps a value in the frame, where it lives there.
pub open spec fn kept(
    frame: Value,
    homes: Seq<Option<u32>>,
    value: Value,
    span: Span,
) -> Seq<InstView> {
    match home(homes, value) {
        Some(field) => seq![store(frame, field, value, span)],
        None => Seq::empty(),
    }
}

/// An instruction with what it reads from the frame read before it, and what it
/// produces kept there after it.
pub open spec fn spilled_inst(
    function: FunctionView,
    frame: Value,
    homes: Seq<Option<u32>>,
    inst: InstView,
    span: Span,
) -> (FunctionView, Seq<InstView>) {
    let operands = inst.kind.operands();
    let (after, loads, new) = loaded(function, frame, homes, operands, span, operands.len());
    let changed = InstView { kind: inst.kind.with_operands(new), ..inst };
    let stores = match inst.result {
        Some(result) => kept(frame, homes, result, span),
        None => Seq::empty(),
    };
    (after, loads.push(changed) + stores)
}

/// The same for the first `count` instructions.
pub open spec fn spilled_insts(
    function: FunctionView,
    frame: Value,
    homes: Seq<Option<u32>>,
    insts: Seq<InstView>,
    span: Span,
    count: nat,
) -> (FunctionView, Seq<InstView>)
    decreases count,
{
    if count == 0 {
        (function, Seq::empty())
    } else {
        let (held, before) = spilled_insts(
            function,
            frame,
            homes,
            insts,
            span,
            (count - 1) as nat,
        );
        let (after, added) = spilled_inst(held, frame, homes, insts[count - 1], span);
        (after, before + added)
    }
}

/// The writes that keep the first `count` parameters of a block in the frame.
pub open spec fn kept_params(
    frame: Value,
    homes: Seq<Option<u32>>,
    params: Seq<Value>,
    span: Span,
    count: nat,
) -> Seq<InstView>
    decreases count,
{
    if count == 0 {
        Seq::empty()
    } else {
        kept_params(frame, homes, params, span, (count - 1) as nat) + kept(
            frame,
            homes,
            params[count - 1],
            span,
        )
    }
}

/// What the first `count` cases of a switch pass, in order.
pub open spec fn case_args(cases: Seq<(u64, TargetView)>, count: nat) -> Seq<Value>
    decreases count,
{
    if count == 0 {
        Seq::empty()
    } else {
        case_args(cases, (count - 1) as nat) + cases[count - 1].1.args
    }
}

/// The values the end of a block reads, in the order they are looked at.
pub open spec fn term_operands(term: TerminatorView) -> Seq<Value> {
    match term {
        TerminatorView::Jump(to) => to.args,
        TerminatorView::Branch { condition, then, otherwise } => seq![condition] + then.args
            + otherwise.args,
        TerminatorView::Switch { value, cases, default } => seq![value] + case_args(
            cases,
            cases.len(),
        ) + default.args,
        TerminatorView::Return(value) => seq![value],
        TerminatorView::Trap(_) => Seq::empty(),
    }
}

/// The jump passing, of `new`, those from `first` on.
pub open spec fn passing(target: TargetView, new: Seq<Value>, first: int) -> TargetView {
    TargetView { args: new.subrange(first, first + target.args.len()), ..target }
}

/// The end of a block reading `new` in the place of what it reads, in order.
pub open spec fn with_term_operands(term: TerminatorView, new: Seq<Value>) -> TerminatorView {
    match term {
        TerminatorView::Jump(to) => TerminatorView::Jump(passing(to, new, 0)),
        TerminatorView::Branch { condition, then, otherwise } => TerminatorView::Branch {
            condition: new[0],
            then: passing(then, new, 1),
            otherwise: passing(otherwise, new, 1int + then.args.len()),
        },
        TerminatorView::Switch { value, cases, default } => TerminatorView::Switch {
            value: new[0],
            cases: Seq::new(
                cases.len(),
                |i: int|
                    (
                        cases[i].0,
                        passing(cases[i].1, new, 1int + case_args(cases, i as nat).len()),
                    ),
            ),
            default: passing(default, new, 1int + case_args(cases, cases.len()).len()),
        },
        TerminatorView::Return(value) => TerminatorView::Return(new[0]),
        TerminatorView::Trap(trap) => TerminatorView::Trap(trap),
    }
}

/// The end of a block with what it reads from the frame read before it.
pub open spec fn spilled_term(
    function: FunctionView,
    frame: Value,
    homes: Seq<Option<u32>>,
    term: Option<TerminatorView>,
    span: Span,
) -> (FunctionView, Seq<InstView>, Option<TerminatorView>) {
    match term {
        Some(held) => {
            let operands = term_operands(held);
            let (after, loads, new) = loaded(
                function,
                frame,
                homes,
                operands,
                span,
                operands.len(),
            );
            (after, loads, Some(with_term_operands(held, new)))
        },
        None => (function, Seq::empty(), None),
    }
}

/// The function with the block at `at` reading what lives in the frame from
/// there, and keeping there what it defines.
pub open spec fn spilled_block(
    function: FunctionView,
    frame: Value,
    homes: Seq<Option<u32>>,
    span: Span,
    at: int,
) -> FunctionView {
    let block = function.blocks[at];
    let stores = kept_params(frame, homes, block.params, span, block.params.len());
    let (held, insts) = spilled_insts(
        function,
        frame,
        homes,
        block.insts,
        span,
        block.insts.len(),
    );
    let (after, loads, term) = spilled_term(held, frame, homes, block.term, span);
    FunctionView {
        blocks: after.blocks.update(
            at,
            BlockView { params: block.params, insts: stores + insts + loads, term },
        ),
        ..after
    }
}

/// The same for the first `count` blocks, in order.
pub open spec fn spilled(
    function: FunctionView,
    frame: Value,
    homes: Seq<Option<u32>>,
    span: Span,
    count: nat,
) -> FunctionView
    decreases count,
{
    if count == 0 {
        function
    } else {
        spilled_block(
            spilled(function, frame, homes, span, (count - 1) as nat),
            frame,
            homes,
            span,
            count - 1,
        )
    }
}

proof fn loaded_counts(
    function: FunctionView,
    frame: Value,
    homes: Seq<Option<u32>>,
    values: Seq<Value>,
    span: Span,
    first: nat,
    last: nat,
)
    requires
        first <= last,
    ensures
        ({
            let (after, loads, new) = loaded(function, frame, homes, values, span, last);
            &&& after == (FunctionView { values: after.values, ..function })
            &&& function.values.is_prefix_of(after.values)
            &&& new.len() == last
            &&& loaded(function, frame, homes, values, span, first).0.values.len()
                <= after.values.len()
        }),
    decreases last,
{
    if last > 0 {
        if first < last {
            loaded_counts(function, frame, homes, values, span, first, (last - 1) as nat);
        } else {
            loaded_counts(
                function,
                frame,
                homes,
                values,
                span,
                (last - 1) as nat,
                (last - 1) as nat,
            );
        }
        let (held, _, _) = loaded(function, frame, homes, values, span, (last - 1) as nat);
        let (after, _, _) = loaded(function, frame, homes, values, span, last);
        assert forall|i: int| 0 <= i < function.values.len() implies function.values[i]
            == after.values[i] by {
            assert(held.values[i] == function.values[i]);
        }
    }
}

proof fn insts_count(
    function: FunctionView,
    frame: Value,
    homes: Seq<Option<u32>>,
    insts: Seq<InstView>,
    span: Span,
    first: nat,
    last: nat,
)
    requires
        first <= last,
    ensures
        ({
            let after = spilled_insts(function, frame, homes, insts, span, last).0;
            &&& after == (FunctionView { values: after.values, ..function })
            &&& function.values.is_prefix_of(after.values)
            &&& spilled_insts(function, frame, homes, insts, span, first).0.values.len()
                <= after.values.len()
        }),
    decreases last,
{
    if last > 0 {
        if first < last {
            insts_count(function, frame, homes, insts, span, first, (last - 1) as nat);
        } else {
            insts_count(
                function,
                frame,
                homes,
                insts,
                span,
                (last - 1) as nat,
                (last - 1) as nat,
            );
        }
        let held = spilled_insts(function, frame, homes, insts, span, (last - 1) as nat).0;
        let operands = insts[last - 1].kind.operands();
        loaded_counts(held, frame, homes, operands, span, 0, operands.len());
        let after = spilled_insts(function, frame, homes, insts, span, last).0;
        assert forall|i: int| 0 <= i < function.values.len() implies function.values[i]
            == after.values[i] by {
            assert(held.values[i] == function.values[i]);
        }
    }
}

proof fn block_counts(
    function: FunctionView,
    frame: Value,
    homes: Seq<Option<u32>>,
    span: Span,
    at: int,
)
    requires
        0 <= at < function.blocks.len(),
    ensures
        ({
            let after = spilled_block(function, frame, homes, span, at);
            &&& after == (FunctionView {
                values: after.values,
                blocks: after.blocks,
                ..function
            })
            &&& function.values.is_prefix_of(after.values)
            &&& after.blocks.len() == function.blocks.len()
            &&& forall|b: int|
                0 <= b < function.blocks.len() && b != at ==> (#[trigger] after.blocks[b])
                    == function.blocks[b]
        }),
{
    let block = function.blocks[at];
    insts_count(function, frame, homes, block.insts, span, 0, block.insts.len());
    let held = spilled_insts(function, frame, homes, block.insts, span, block.insts.len()).0;
    if let Some(term) = block.term {
        let operands = term_operands(term);
        loaded_counts(held, frame, homes, operands, span, 0, operands.len());
        let after = spilled_block(function, frame, homes, span, at);
        assert forall|i: int| 0 <= i < function.values.len() implies function.values[i]
            == after.values[i] by {
            assert(held.values[i] == function.values[i]);
        }
    }
}

proof fn blocks_count(
    function: FunctionView,
    frame: Value,
    homes: Seq<Option<u32>>,
    span: Span,
    first: nat,
    last: nat,
)
    requires
        first <= last <= function.blocks.len(),
    ensures
        ({
            let after = spilled(function, frame, homes, span, last);
            &&& after == (FunctionView {
                values: after.values,
                blocks: after.blocks,
                ..function
            })
            &&& function.values.is_prefix_of(after.values)
            &&& after.blocks.len() == function.blocks.len()
            &&& spilled(function, frame, homes, span, first).values.len() <= after.values.len()
            &&& forall|b: int|
                last <= b < function.blocks.len() ==> (#[trigger] after.blocks[b])
                    == function.blocks[b]
        }),
    decreases last,
{
    if last > 0 {
        if first < last {
            blocks_count(function, frame, homes, span, first, (last - 1) as nat);
        } else {
            blocks_count(
                function,
                frame,
                homes,
                span,
                (last - 1) as nat,
                (last - 1) as nat,
            );
        }
        let held = spilled(function, frame, homes, span, (last - 1) as nat);
        block_counts(held, frame, homes, span, last - 1);
        let after = spilled(function, frame, homes, span, last);
        assert forall|i: int| 0 <= i < function.values.len() implies function.values[i]
            == after.values[i] by {
            assert(held.values[i] == function.values[i]);
        }
        assert forall|b: int| last <= b < function.blocks.len() implies (
        #[trigger] after.blocks[b]) == function.blocks[b] by {
            assert(held.blocks[b] == function.blocks[b]);
        }
    }
}

/// Spilling adds values at the end, and leaves all else but the blocks alone.
pub proof fn spilling_only_adds(
    function: FunctionView,
    frame: Value,
    homes: Seq<Option<u32>>,
    span: Span,
)
    ensures
        ({
            let after = spilled(function, frame, homes, span, function.blocks.len());
            &&& after == (FunctionView {
                values: after.values,
                blocks: after.blocks,
                ..function
            })
            &&& function.values.is_prefix_of(after.values)
            &&& after.blocks.len() == function.blocks.len()
        }),
{
    blocks_count(function, frame, homes, span, 0, function.blocks.len());
}

/// Where nothing lives in the frame, nothing changes.
pub proof fn nothing_to_load(
    function: FunctionView,
    frame: Value,
    homes: Seq<Option<u32>>,
    values: Seq<Value>,
    span: Span,
    count: nat,
)
    requires
        count <= values.len(),
        forall|i: int| 0 <= i < values.len() ==> home(homes, #[trigger] values[i]) is None,
    ensures
        loaded(function, frame, homes, values, span, count) == (
            function,
            Seq::<InstView>::empty(),
            values.take(count as int),
        ),
    decreases count,
{
    if count > 0 {
        nothing_to_load(function, frame, homes, values, span, (count - 1) as nat);
        assert(home(homes, values[count - 1]) is None);
        assert(values.take(count - 1).push(values[count - 1]) =~= values.take(count as int));
    } else {
        assert(values.take(0) =~= Seq::empty());
    }
}

fn home_of(homes: &Vec<Option<u32>>, value: Value) -> (field: Option<u32>)
    ensures
        field == home(homes@, value),
{
    if (value.0 as usize) < homes.len() {
        homes[value.0 as usize]
    } else {
        None
    }
}

fn push_inst(insts: &mut Vec<Inst>, inst: Inst)
    ensures
        views(final(insts)@) == views(old(insts)@).push(inst@),
{
    let ghost before = insts@;
    insts.push(inst);
    assert(views(insts@) =~= views(before).push(inst@));
}

fn load_values(
    function: &mut Function,
    frame: Value,
    homes: &Vec<Option<u32>>,
    values: &Vec<Value>,
    span: Span,
    insts: &mut Vec<Inst>,
) -> (new: Vec<Value>)
    requires
        values_within(values@, old(function)@.values.len()),
        loaded(
            old(function)@,
            frame,
            homes@,
            values@,
            span,
            values@.len(),
        ).0.values.len() <= id_limit(),
    ensures
        ({
            let (after, loads, renamed) = loaded(
                old(function)@,
                frame,
                homes@,
                values@,
                span,
                values@.len(),
            );
            &&& final(function)@ == after
            &&& views(final(insts)@) == views(old(insts)@) + loads
            &&& new@ == renamed
        }),
{
    let ghost start = function@;
    let ghost had = views(insts@);
    let mut new: Vec<Value> = Vec::new();
    let mut i: usize = 0;
    assert(new@ =~= Seq::empty());
    assert(had + Seq::<InstView>::empty() =~= had);
    while i < values.len()
        invariant
            i <= values.len(),
            values_within(values@, start.values.len()),
            loaded(start, frame, homes@, values@, span, values@.len()).0.values.len()
                <= id_limit(),
            (function@, views(insts@), new@) == ({
                let (after, loads, renamed) = loaded(
                    start,
                    frame,
                    homes@,
                    values@,
                    span,
                    i as nat,
                );
                (after, had + loads, renamed)
            }),
        decreases values.len() - i,
    {
        proof {
            loaded_counts(start, frame, homes@, values@, span, i as nat, i as nat);
            loaded_counts(start, frame, homes@, values@, span, (i + 1) as nat, values@.len());
        }
        let ghost before = views(insts@);
        let ghost (held, loads, renamed) = loaded(start, frame, homes@, values@, span, i as nat);
        let value = values[i];
        match home_of(homes, value) {
            Some(field) => {
                let ty = function.type_of(value).clone();
                let result = function.add_value(ty);
                let inst = Inst {
                    result: Some(result),
                    kind: InstKind::GetField { object: frame, field },
                    span,
                };
                push_inst(insts, inst);
                new.push(result);
                assert(had + loads.push(inst@) =~= (had + loads).push(inst@));
            },
            None => {
                new.push(value);
            },
        }
        i += 1;
    }
    new
}

fn keep(
    frame: Value,
    homes: &Vec<Option<u32>>,
    value: Value,
    span: Span,
    insts: &mut Vec<Inst>,
)
    ensures
        views(final(insts)@) == views(old(insts)@) + kept(frame, homes@, value, span),
{
    let ghost before = views(insts@);
    match home_of(homes, value) {
        Some(field) => {
            let inst = Inst {
                result: None,
                kind: InstKind::SetField { object: frame, field, value },
                span,
            };
            push_inst(insts, inst);
            assert(before.push(inst@) =~= before + seq![store(frame, field, value, span)]);
        },
        None => {
            assert(before + Seq::<InstView>::empty() =~= before);
        },
    }
}

fn spill_inst(
    function: &mut Function,
    frame: Value,
    homes: &Vec<Option<u32>>,
    inst: &Inst,
    span: Span,
    insts: &mut Vec<Inst>,
)
    requires
        inst@.within(old(function)@.values.len(), old(function)@.slots.len()),
        spilled_inst(old(function)@, frame, homes@, inst@, span).0.values.len() <= id_limit(),
    ensures
        ({
            let (after, added) = spilled_inst(old(function)@, frame, homes@, inst@, span);
            &&& final(function)@ == after
            &&& views(final(insts)@) == views(old(insts)@) + added
        }),
{
    let ghost start = function@;
    let ghost had = views(insts@);
    let operands = inst.kind.operands();
    proof {
        super::live::operands_within(inst@.kind, start.values.len(), start.slots.len());
        loaded_counts(start, frame, homes@, operands@, span, 0, operands@.len());
    }
    let new = load_values(function, frame, homes, &operands, span, insts);
    let ghost loads = loaded(start, frame, homes@, operands@, span, operands@.len()).1;
    let changed = Inst {
        result: inst.result,
        kind: inst.kind.with_operands(&new),
        span: inst.span,
    };
    push_inst(insts, changed);
    let ghost middle = views(insts@);
    assert(middle =~= had + loads.push(changed@));
    match inst.result {
        Some(result) => {
            keep(frame, homes, result, span, insts);
            assert(views(insts@) =~= had + (loads.push(changed@) + kept(
                frame,
                homes@,
                result,
                span,
            )));
        },
        None => {
            assert(had + (loads.push(changed@) + Seq::<InstView>::empty()) =~= middle);
        },
    }
}

fn collect_case_args(cases: &Vec<(u64, Target)>, found: &mut Vec<Value>)
    ensures
        final(found)@ == old(found)@ + case_args(case_views(cases@), cases@.len()),
{
    let ghost had = found@;
    let mut i: usize = 0;
    assert(had + Seq::<Value>::empty() =~= had);
    while i < cases.len()
        invariant
            i <= cases.len(),
            found@ == had + case_args(case_views(cases@), i as nat),
        decreases cases.len() - i,
    {
        push_values(found, &cases[i].1.args);
        assert(found@ =~= had + case_args(case_views(cases@), (i + 1) as nat));
        i += 1;
    }
}

fn operands_of(term: &Terminator) -> (found: Vec<Value>)
    ensures
        found@ == term_operands(term@),
{
    let mut found: Vec<Value> = Vec::new();
    match term {
        Terminator::Jump(to) => {
            push_values(&mut found, &to.args);
        },
        Terminator::Branch { condition, then, otherwise } => {
            found.push(*condition);
            push_values(&mut found, &then.args);
            push_values(&mut found, &otherwise.args);
        },
        Terminator::Switch { value, cases, default } => {
            found.push(*value);
            collect_case_args(cases, &mut found);
            push_values(&mut found, &default.args);
        },
        Terminator::Return(value) => {
            found.push(*value);
        },
        Terminator::Trap(_) => {},
    }
    assert(found@ =~= term_operands(term@));
    found
}

fn pass(target: &Target, new: &Vec<Value>, first: usize) -> (changed: Target)
    requires
        first + target@.args.len() <= new@.len(),
    ensures
        changed@ == passing(target@, new@, first as int),
{
    let mut args: Vec<Value> = Vec::new();
    let mut i: usize = 0;
    while i < target.args.len()
        invariant
            i <= target.args.len(),
            first + target.args@.len() <= new@.len(),
            args@ == new@.subrange(first as int, first + i),
        decreases target.args.len() - i,
    {
        assert(first + i < new.len());
        args.push(new[first + i]);
        assert(args@ =~= new@.subrange(first as int, first + i + 1));
        i += 1;
    }
    Target { block: target.block, args }
}

proof fn case_args_grow(cases: Seq<(u64, TargetView)>, first: nat, last: nat)
    requires
        first <= last,
    ensures
        case_args(cases, first).len() <= case_args(cases, last).len(),
    decreases last,
{
    if first < last {
        case_args_grow(cases, first, (last - 1) as nat);
    }
}

fn rename_term(term: &Terminator, new: &Vec<Value>) -> (changed: Terminator)
    requires
        new@.len() == term_operands(term@).len(),
    ensures
        changed@ == with_term_operands(term@, new@),
{
    match term {
        Terminator::Jump(to) => Terminator::Jump(pass(to, new, 0)),
        Terminator::Branch { condition, then, otherwise } => {
            assert(1 + then.args.len() <= new.len());
            Terminator::Branch {
                condition: new[0],
                then: pass(then, new, 1),
                otherwise: pass(otherwise, new, 1 + then.args.len()),
            }
        },
        Terminator::Switch { value, cases, default } => {
            let ghost held = case_views(cases@);
            let mut changed: Vec<(u64, Target)> = Vec::new();
            let mut first: usize = 1;
            let mut i: usize = 0;
            while i < cases.len()
                invariant
                    i <= cases.len(),
                    held == case_views(cases@),
                    first == 1int + case_args(held, i as nat).len(),
                    1int + case_args(held, held.len()).len() <= new@.len(),
                    changed@.len() == i,
                    forall|j: int|
                        0 <= j < i ==> (#[trigger] changed@[j]).0 == held[j].0 && changed@[j].1@
                            == passing(held[j].1, new@, 1int + case_args(held, j as nat).len()),
                decreases cases.len() - i,
            {
                proof {
                    case_args_grow(held, (i + 1) as nat, held.len());
                }
                changed.push((cases[i].0, pass(&cases[i].1, new, first)));
                assert(first + cases[i as int].1.args.len() <= new.len());
                first += cases[i].1.args.len();
                i += 1;
            }
            let after = Terminator::Switch {
                value: new[0],
                cases: changed,
                default: pass(default, new, first),
            };
            assert(case_views(changed@) =~= with_term_operands(term@, new@)->Switch_cases);
            after
        },
        Terminator::Return(value) => Terminator::Return(new[0]),
        Terminator::Trap(trap) => Terminator::Trap(*trap),
    }
}

proof fn term_operands_within(term: TerminatorView, values: nat, blocks: nat)
    requires
        term.within(values, blocks),
    ensures
        values_within(term_operands(term), values),
{
    match term {
        TerminatorView::Jump(to) => {
            assert(term.targets()[0].within(values, blocks));
        },
        TerminatorView::Branch { condition, then, otherwise } => {
            assert(term.targets()[0].within(values, blocks));
            assert(term.targets()[1].within(values, blocks));
        },
        TerminatorView::Switch { value, cases, default } => {
            assert(term.targets()[cases.len() as int].within(values, blocks));
            assert forall|i: int| 0 <= i < cases.len() implies values_within(
                (#[trigger] cases[i]).1.args,
                values,
            ) by {
                assert(term.targets()[i].within(values, blocks));
            }
            case_args_within(cases, cases.len(), values);
        },
        _ => {},
    }
}

proof fn case_args_within(cases: Seq<(u64, TargetView)>, count: nat, values: nat)
    requires
        count <= cases.len(),
        forall|i: int|
            0 <= i < cases.len() ==> values_within((#[trigger] cases[i]).1.args, values),
    ensures
        values_within(case_args(cases, count), values),
    decreases count,
{
    if count > 0 {
        case_args_within(cases, (count - 1) as nat, values);
        assert(values_within(cases[count - 1].1.args, values));
    }
}

fn spill_block(
    function: &mut Function,
    frame: Value,
    homes: &Vec<Option<u32>>,
    span: Span,
    at: usize,
    Ghost(values): Ghost<nat>,
)
    requires
        at < old(function)@.blocks.len(),
        values <= old(function)@.values.len(),
        old(function)@.blocks[at as int].within(
            values,
            old(function)@.slots.len(),
            old(function)@.blocks.len(),
        ),
        spilled_block(old(function)@, frame, homes@, span, at as int).values.len() <= id_limit(),
    ensures
        final(function)@ == spilled_block(old(function)@, frame, homes@, span, at as int),
{
    let ghost start = function@;
    let block = function.blocks[at].clone();
    let ghost held = start.blocks[at as int];
    let mut built: Vec<Inst> = Vec::new();
    let mut p: usize = 0;
    assert(views(built@) =~= Seq::empty());
    while p < block.params.len()
        invariant
            p <= block.params.len(),
            views(built@) == kept_params(frame, homes@, block.params@, span, p as nat),
        decreases block.params.len() - p,
    {
        keep(frame, homes, block.params[p], span, &mut built);
        p += 1;
    }
    let ghost stores = views(built@);
    let ghost insts = held.insts;
    let ghost middle = spilled_insts(start, frame, homes@, insts, span, insts.len());
    proof {
        insts_count(start, frame, homes@, insts, span, 0, insts.len());
        if let Some(term) = held.term {
            let operands = term_operands(term);
            loaded_counts(middle.0, frame, homes@, operands, span, 0, operands.len());
        }
        assert(stores + Seq::<InstView>::empty() =~= stores);
    }
    let mut i: usize = 0;
    while i < block.insts.len()
        invariant
            i <= block.insts.len(),
            insts == block@.insts,
            values <= start.values.len(),
            forall|k: int|
                0 <= k < insts.len() ==> (#[trigger] insts[k]).within(values, start.slots.len()),
            middle == spilled_insts(start, frame, homes@, insts, span, insts.len()),
            middle.0.values.len() <= id_limit(),
            (function@, views(built@)) == ({
                let (after, added) = spilled_insts(start, frame, homes@, insts, span, i as nat);
                (after, stores + added)
            }),
        decreases block.insts.len() - i,
    {
        let ghost had = views(built@);
        let ghost before = spilled_insts(start, frame, homes@, insts, span, i as nat);
        proof {
            insts_count(start, frame, homes@, insts, span, i as nat, i as nat);
            insts_count(start, frame, homes@, insts, span, (i + 1) as nat, insts.len());
            assert(insts[i as int] == block.insts@[i as int]@);
            within_grows(
                insts[i as int],
                values,
                start.slots.len(),
                function@.values.len(),
                start.slots.len(),
            );
        }
        spill_inst(function, frame, homes, &block.insts[i], span, &mut built);
        proof {
            let added = spilled_inst(before.0, frame, homes@, insts[i as int], span).1;
            assert(stores + (before.1 + added) =~= (stores + before.1) + added);
        }
        i += 1;
    }
    let term = match &block.term {
        Some(term) => {
            let operands = operands_of(term);
            proof {
                term_operands_within(term@, values, start.blocks.len());
            }
            let new = load_values(function, frame, homes, &operands, span, &mut built);
            proof {
                loaded_counts(middle.0, frame, homes@, operands@, span, 0, operands@.len());
            }
            Some(rename_term(term, &new))
        },
        None => {
            assert(views(built@) + Seq::<InstView>::empty() =~= views(built@));
            None
        },
    };
    let ghost grown = function@;
    let finished = Block { params: block.params, insts: built, term };
    function.blocks.set(at, finished);
    assert(function@.blocks =~= grown.blocks.update(at as int, finished@));
    assert(function@ =~= spilled_block(start, frame, homes@, span, at as int));
}

/// Stores each spilled value into its frame slot where it is defined, and
/// loads it where it is used.
pub fn spill(function: &mut Function, frame: Value, homes: &Vec<Option<u32>>, span: Span)
    requires
        old(function)@.well_formed(),
        spilled(
            old(function)@,
            frame,
            homes@,
            span,
            old(function)@.blocks.len(),
        ).values.len() <= id_limit(),
    ensures
        final(function)@ == spilled(
            old(function)@,
            frame,
            homes@,
            span,
            old(function)@.blocks.len(),
        ),
{
    let ghost start = function@;
    let mut b: usize = 0;
    while b < function.blocks.len()
        invariant
            b <= function.blocks.len() == start.blocks.len(),
            start.well_formed(),
            function@ == spilled(start, frame, homes@, span, b as nat),
            spilled(start, frame, homes@, span, start.blocks.len()).values.len() <= id_limit(),
        decreases function.blocks.len() - b,
    {
        proof {
            blocks_count(start, frame, homes@, span, b as nat, b as nat);
            blocks_count(start, frame, homes@, span, (b + 1) as nat, start.blocks.len());
            assert(start.blocks[b as int].within(
                start.values.len(),
                start.slots.len(),
                start.blocks.len(),
            ));
        }
        spill_block(function, frame, homes, span, b, Ghost(start.values.len()));
        proof {
            blocks_count(start, frame, homes@, span, (b + 1) as nat, (b + 1) as nat);
        }
        b += 1;
    }
}

} // verus!
