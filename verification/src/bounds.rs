//! Bounds-check elimination.
//!
//! A loop that counts up from a number that is not negative, by steps that are
//! positive, and that runs while its counter is below the length of a list,
//! needs no check where its body reads that list at the counter. The length may be
//! read in the loop or before it, but nothing between the read and the test may
//! change how many a list holds, and nothing but the test may lead into the body.

pub mod running;

use vstd::prelude::*;

use crate::inst::{
    target_views, BinaryOp, Const, ConstView, Effect, Inst, InstKind, InstKindView, InstView,
    TargetView, Terminator, TerminatorView, Value,
};
use crate::program::{
    id_limit, views, BlockId, BlockView, FuncId, Function, FunctionView, Program, ProgramView,
};
use crate::text::{first_is_position, absent_has_no_position, position};
use crate::ty::{Builtin, IntTy, Ty, TyView};

verus! {

/// Where the last of `insts` that produces `value` stands.
pub open spec fn place_among(insts: Seq<InstView>, value: Value) -> Option<int>
    decreases insts.len(),
{
    if insts.len() == 0 {
        None
    } else if insts.last().result == Some(value) {
        Some(insts.len() - 1)
    } else {
        place_among(insts.drop_last(), value)
    }
}

/// Where the last instruction that produces `value` stands: its block, and its
/// place in it.
pub open spec fn place(blocks: Seq<BlockView>, value: Value) -> Option<(int, int)>
    decreases blocks.len(),
{
    if blocks.len() == 0 {
        None
    } else {
        match place_among(blocks.last().insts, value) {
            Some(at) => Some((blocks.len() - 1, at)),
            None => place(blocks.drop_last(), value),
        }
    }
}

/// What produces `value`, where an instruction of the blocks does.
pub open spec fn definition(blocks: Seq<BlockView>, value: Value) -> Option<InstKindView> {
    match place(blocks, value) {
        Some((b, i)) => Some(blocks[b].insts[i].kind),
        None => None,
    }
}

/// Whether the `which`th jump out of the block at `from` lands in `header`.
pub open spec fn enters(function: FunctionView, from: int, which: int, header: BlockId) -> bool {
    &&& 0 <= from < function.blocks.len()
    &&& function.blocks[from].term matches Some(term) && 0 <= which < term.targets().len()
        && term.targets()[which].block == header
}

/// The `which`th jump out of the block at `from`.
pub open spec fn edge(function: FunctionView, from: int, which: int) -> TargetView {
    function.blocks[from].term->Some_0.targets()[which]
}

/// Whether `bits` spell, in type `ty`, an integer that is not negative on any
/// target. A negative one is kept as the bits of its own width, the top one set.
pub open spec fn spells_no_sign(bits: u64, ty: TyView) -> bool {
    match ty {
        TyView::Int(IntTy::I8) => bits <= 0x7f,
        TyView::Int(IntTy::I16) => bits <= 0x7fff,
        TyView::Int(IntTy::I32) | TyView::Int(IntTy::Isize) => bits <= 0x7fff_ffff,
        TyView::Int(_) => bits <= i64::MAX,
        _ => false,
    }
}

/// The integer that `value` is, where it is a constant that is not negative.
pub open spec fn count_of(function: FunctionView, value: Value) -> Option<u64> {
    match definition(function.blocks, value) {
        Some(InstKindView::Const(ConstView::Int(held))) => if value.0 < function.values.len()
            && spells_no_sign(held, function.type_of(value)) {
            Some(held)
        } else {
            None
        },
        _ => None,
    }
}

/// Whether a jump passes, at `at`, an integer that is not negative.
pub open spec fn seeds(function: FunctionView, jump: TargetView, at: int) -> bool {
    at < jump.args.len() && count_of(function, jump.args[at]) is Some
}

/// Whether `value` is a constant above zero.
pub open spec fn is_positive(function: FunctionView, value: Value) -> bool {
    count_of(function, value) matches Some(held) && held > 0
}

/// Whether a jump passes, at `at`, something positive more than `index`.
pub open spec fn steps(function: FunctionView, jump: TargetView, at: int, index: Value) -> bool {
    &&& at < jump.args.len()
    &&& definition(function.blocks, jump.args[at]) matches Some(
        InstKindView::Binary { op: BinaryOp::Add, left, right },
    ) && left == index && is_positive(function, right)
}

/// Whether `index` is a parameter of `header` that starts at something not
/// negative and only ever grows: every jump into the block passes the one or
/// the other, and both kinds of jump are there. A caller enters the first block
/// of a function with whatever it likes.
pub open spec fn ascends(function: FunctionView, header: BlockId, index: Value) -> bool {
    match position(function.block(header).params, index) {
        None => false,
        Some(at) => {
            &&& header != function.entry
            &&& forall|from: int, which: int| #[trigger]
                enters(function, from, which, header) ==> seeds(
                    function,
                    edge(function, from, which),
                    at,
                ) || steps(function, edge(function, from, which), at, index)
            &&& exists|from: int, which: int| #[trigger]
                enters(function, from, which, header) && seeds(
                    function,
                    edge(function, from, which),
                    at,
                )
            &&& exists|from: int, which: int| #[trigger]
                enters(function, from, which, header) && steps(
                    function,
                    edge(function, from, which),
                    at,
                    index,
                )
        },
    }
}

/// Whether a value of the type is a list, whose length is how many it holds.
pub open spec fn list_like(ty: TyView) -> bool {
    ty matches TyView::Builtin { kind, .. } && (kind is List || kind is FrozenList)
}

/// Whether the instruction may change how many a list holds.
pub open spec fn resizes(kind: InstKindView) -> bool {
    match kind {
        InstKindView::Call { .. }
        | InstKindView::CallIndirect { .. }
        | InstKindView::CallVirtual { .. }
        | InstKindView::ListPush { .. }
        | InstKindView::ListPop { .. }
        | InstKindView::ListInsert { .. }
        | InstKindView::ListRemoveAt { .. }
        | InstKindView::Clear { .. }
        | InstKindView::ReleaseSlice { .. }
        | InstKindView::Store { .. }
        | InstKindView::Await { .. }
        | InstKindView::CancellationPoint
        | InstKindView::Cancel { .. } => true,
        _ => false,
    }
}

/// Whether a jump leads from the block at `from` to the block at `to`.
pub open spec fn joined(function: FunctionView, from: int, to: int) -> bool {
    &&& 0 <= from < function.blocks.len()
    &&& function.blocks[from].term matches Some(term) && exists|which: int|
        0 <= which < term.targets().len() && (#[trigger] term.targets()[which]).block.0 == to
}

/// Whether `path` leads to the block at `header`, each block of it to the next,
/// and comes by the block at `stop` at most where it starts.
pub open spec fn leads(function: FunctionView, path: Seq<int>, stop: int, header: int) -> bool {
    &&& path.len() > 0
    &&& path.last() == header
    &&& forall|i: int| 0 <= i < path.len() - 1 ==> joined(function, #[trigger] path[i], path[i + 1])
    &&& forall|i: int| 0 < i < path.len() ==> #[trigger] path[i] != stop
}

/// Whether the block at `b` is on a way to the block at `header` that comes by the
/// block at `stop` at most where it starts.
pub open spec fn on_the_way(function: FunctionView, stop: int, header: int, b: int) -> bool {
    exists|path: Seq<int>| #[trigger] leads(function, path, stop, header) && path[0] == b
}

/// Whether what the instruction at `at` in the block at `b` read of a list is so
/// still at the end of the block at `header`: no way leads there but by that block,
/// and nothing on the way from the read on may change how many a list holds.
pub open spec fn lasts(function: FunctionView, b: int, at: int, header: int) -> bool {
    &&& on_the_way(function, b, header, function.entry.0 as int) ==> function.entry.0 == b
    &&& forall|c: int, j: int|
        0 <= c < function.blocks.len() && 0 <= j < function.blocks[c].insts.len() && on_the_way(
            function,
            b,
            header,
            c,
        ) && (c == b ==> j > at) ==> !resizes((#[trigger] function.blocks[c].insts[j]).kind)
}

/// The list whose length `value` is, at `before` in the block at `header` and from
/// there to its end.
pub open spec fn length_of(
    function: FunctionView,
    header: int,
    before: int,
    value: Value,
) -> Option<Value> {
    match place(function.blocks, value) {
        Some((b, at)) => match function.blocks[b].insts[at].kind {
            InstKindView::Length { receiver } => if (b == header ==> at < before) && lasts(
                function,
                b,
                at,
                header,
            ) {
                Some(receiver)
            } else {
                None
            },
            _ => None,
        },
        None => None,
    }
}

/// The index and the list for which `condition` says, at the end of the block at
/// `header`, that the one is below the length of the other.
pub open spec fn compared(function: FunctionView, header: int, condition: Value) -> Option<
    (Value, Value),
> {
    match place(function.blocks, condition) {
        Some((b, at)) => match function.blocks[b].insts[at].kind {
            InstKindView::Binary { op: BinaryOp::Less, left, right } => if b == header {
                match length_of(function, header, at, right) {
                    Some(receiver) => Some((left, receiver)),
                    None => None,
                }
            } else {
                None
            },
            _ => None,
        },
        None => None,
    }
}

/// Whether the first jump out of the block at `header` is the only way into
/// `block`.
pub open spec fn only_way_in(function: FunctionView, header: int, block: BlockId) -> bool {
    &&& block != function.entry
    &&& forall|from: int, which: int| #[trigger]
        enters(function, from, which, block) ==> from == header && which == 0
}

/// What the block at `header` proves: that in a block it jumps to, a list may
/// be read at an index.
pub open spec fn proof_at(function: FunctionView, header: int) -> Option<(BlockId, Value, Value)> {
    match function.blocks[header].term {
        Some(TerminatorView::Branch { condition, then, .. }) => match compared(
            function,
            header,
            condition,
        ) {
            Some((index, receiver)) => if list_like(function.type_of(receiver)) && ascends(
                function,
                BlockId(header as u32),
                index,
            ) && only_way_in(function, header, then.block) {
                Some((then.block, receiver, index))
            } else {
                None
            },
            None => None,
        },
        _ => None,
    }
}

/// What the first `count` blocks prove, in their order.
pub open spec fn proved(function: FunctionView, count: nat) -> Seq<(BlockId, Value, Value)>
    decreases count,
{
    if count == 0 {
        Seq::empty()
    } else {
        let before = proved(function, (count - 1) as nat);
        match proof_at(function, count - 1) {
            Some(found) => before.push(found),
            None => before,
        }
    }
}

/// The access without its check, where the instruction is one of `receiver`
/// at `index`.
pub open spec fn without_check(
    kind: InstKindView,
    receiver: Value,
    index: Value,
) -> Option<InstKindView> {
    match kind {
        InstKindView::GetIndex { receiver: held, index: at } => if held == receiver && at == index {
            Some(InstKindView::GetUncheckedIndex { receiver: held, index: at })
        } else {
            None
        },
        InstKindView::SetIndex { receiver: held, index: at, value } => if held == receiver && at
            == index {
            Some(InstKindView::SetUncheckedIndex { receiver: held, index: at, value })
        } else {
            None
        },
        _ => None,
    }
}

/// The instructions with the accesses of `receiver` at `index` unchecked, up
/// to the first other instruction that may change what the list holds.
pub open spec fn unchecked(insts: Seq<InstView>, receiver: Value, index: Value) -> Seq<InstView>
    decreases insts.len(),
{
    if insts.len() == 0 {
        insts
    } else {
        match without_check(insts[0].kind, receiver, index) {
            Some(kind) => seq![InstView { kind, ..insts[0] }] + unchecked(
                insts.skip(1),
                receiver,
                index,
            ),
            None => if insts[0].kind.effect() is State {
                insts
            } else {
                seq![insts[0]] + unchecked(insts.skip(1), receiver, index)
            },
        }
    }
}

/// The function with the accesses one proof covers unchecked.
pub open spec fn use_proof(
    function: FunctionView,
    found: (BlockId, Value, Value),
) -> FunctionView {
    let held = function.block(found.0);
    function.with_block(
        found.0,
        BlockView { insts: unchecked(held.insts, found.1, found.2), ..held },
    )
}

/// The function with the accesses each proof covers unchecked, one proof after
/// another.
pub open spec fn use_proofs(
    function: FunctionView,
    found: Seq<(BlockId, Value, Value)>,
) -> FunctionView
    decreases found.len(),
{
    if found.len() == 0 {
        function
    } else {
        use_proof(use_proofs(function, found.drop_last()), found.last())
    }
}

/// The function without the bounds checks its loops make needless.
pub open spec fn eliminated(function: FunctionView) -> FunctionView {
    use_proofs(function, proved(function, function.blocks.len()))
}

/// Whether `after` is `before`, or the same access without its check.
pub open spec fn same_or_unchecked(before: InstView, after: InstView) -> bool {
    after == before || exists|receiver: Value, index: Value|
        #[trigger] without_check(before.kind, receiver, index) == Some(after.kind) && after == (
        InstView { kind: after.kind, ..before })
}

/// Whether two functions differ in nothing but checks the second leaves out.
pub open spec fn only_unchecks(before: FunctionView, after: FunctionView) -> bool {
    &&& after == (FunctionView { blocks: after.blocks, ..before })
    &&& after.blocks.len() == before.blocks.len()
    &&& forall|b: int|
        0 <= b < before.blocks.len() ==> {
            &&& (#[trigger] after.blocks[b]).params == before.blocks[b].params
            &&& after.blocks[b].term == before.blocks[b].term
            &&& after.blocks[b].insts.len() == before.blocks[b].insts.len()
        }
    &&& forall|b: int, i: int|
        0 <= b < before.blocks.len() && 0 <= i < before.blocks[b].insts.len()
            ==> same_or_unchecked(before.blocks[b].insts[i], #[trigger] after.blocks[b].insts[i])
}

proof fn unchecked_pointwise(insts: Seq<InstView>, receiver: Value, index: Value)
    ensures
        unchecked(insts, receiver, index).len() == insts.len(),
        forall|i: int|
            0 <= i < insts.len() ==> {
                let after = #[trigger] unchecked(insts, receiver, index)[i];
                ||| after == insts[i]
                ||| {
                    &&& without_check(insts[i].kind, receiver, index) == Some(after.kind)
                    &&& after == (InstView { kind: after.kind, ..insts[i] })
                    &&& forall|j: int|
                        0 <= j < i ==> !((#[trigger] insts[j]).kind.effect() is State)
                            || without_check(insts[j].kind, receiver, index) is Some
                }
            },
    decreases insts.len(),
{
    if insts.len() > 0 {
        let rest = insts.skip(1);
        unchecked_pointwise(rest, receiver, index);
        let whole = unchecked(insts, receiver, index);
        if without_check(insts[0].kind, receiver, index) is Some || !(insts[0].kind.effect()
            is State) {
            assert forall|i: int| 0 <= i < insts.len() implies {
                let after = #[trigger] whole[i];
                ||| after == insts[i]
                ||| {
                    &&& without_check(insts[i].kind, receiver, index) == Some(after.kind)
                    &&& after == (InstView { kind: after.kind, ..insts[i] })
                    &&& forall|j: int|
                        0 <= j < i ==> !((#[trigger] insts[j]).kind.effect() is State)
                            || without_check(insts[j].kind, receiver, index) is Some
                }
            } by {
                if i > 0 {
                    assert(whole[i] == unchecked(rest, receiver, index)[i - 1]);
                    assert(rest[i - 1] == insts[i]);
                    if whole[i] != insts[i] {
                        assert forall|j: int| 0 <= j < i implies !((
                        #[trigger] insts[j]).kind.effect() is State) || without_check(
                            insts[j].kind,
                            receiver,
                            index,
                        ) is Some by {
                            if j > 0 {
                                assert(rest[j - 1] == insts[j]);
                            }
                        }
                    }
                }
            }
        }
    }
}

/// A check goes only where nothing before it in the block could have changed
/// what the list holds: each instruction before it has no such effect, or is
/// itself an access the same proof covers.
pub proof fn unchecked_only_while_unchanged(
    insts: Seq<InstView>,
    receiver: Value,
    index: Value,
    at: int,
)
    requires
        0 <= at < insts.len(),
        unchecked(insts, receiver, index)[at] != insts[at],
    ensures
        without_check(insts[at].kind, receiver, index) == Some(
            unchecked(insts, receiver, index)[at].kind,
        ),
        forall|j: int|
            0 <= j < at ==> !((#[trigger] insts[j]).kind.effect() is State) || without_check(
                insts[j].kind,
                receiver,
                index,
            ) is Some,
{
    unchecked_pointwise(insts, receiver, index);
    assert(unchecked(insts, receiver, index)[at] != insts[at]);
}

proof fn proofs_only_uncheck(function: FunctionView, found: Seq<(BlockId, Value, Value)>)
    requires
        forall|i: int| 0 <= i < found.len() ==> (#[trigger] found[i]).0.0 < function.blocks.len(),
    ensures
        only_unchecks(function, use_proofs(function, found)),
        forall|b: int, i: int|
            0 <= b < function.blocks.len() && 0 <= i < function.blocks[b].insts.len() && (
            #[trigger] use_proofs(function, found).blocks[b].insts[i])
                != function.blocks[b].insts[i] ==> exists|k: int|
                0 <= k < found.len() && (#[trigger] found[k]).0.0 == b && without_check(
                    function.blocks[b].insts[i].kind,
                    found[k].1,
                    found[k].2,
                ) is Some,
    decreases found.len(),
{
    if found.len() > 0 {
        let shorter = found.drop_last();
        let last = found.last();
        assert forall|i: int| 0 <= i < shorter.len() implies (#[trigger] shorter[i]).0.0
            < function.blocks.len() by {
            assert(shorter[i] == found[i]);
        }
        assert(found[found.len() - 1] == last);
        proofs_only_uncheck(function, shorter);
        let before = use_proofs(function, shorter);
        let after = use_proofs(function, found);
        assert(after == use_proof(before, last));
        let at = last.0.0 as int;
        unchecked_pointwise(before.blocks[at].insts, last.1, last.2);
        assert forall|b: int| 0 <= b < function.blocks.len() implies {
            &&& (#[trigger] after.blocks[b]).params == function.blocks[b].params
            &&& after.blocks[b].term == function.blocks[b].term
            &&& after.blocks[b].insts.len() == function.blocks[b].insts.len()
        } by {
            assert(before.blocks[b].params == function.blocks[b].params);
        }
        assert forall|b: int, i: int|
            0 <= b < function.blocks.len() && 0 <= i < function.blocks[b].insts.len() implies
            same_or_unchecked(function.blocks[b].insts[i], #[trigger] after.blocks[b].insts[i]) by {
            let original = function.blocks[b].insts[i];
            let middle = before.blocks[b].insts[i];
            assert(same_or_unchecked(original, middle));
            if b == at && after.blocks[b].insts[i] != middle {
                assert(without_check(middle.kind, last.1, last.2) == Some(
                    after.blocks[b].insts[i].kind,
                ));
                assert(middle == original);
            }
        }
        assert forall|b: int, i: int|
            0 <= b < function.blocks.len() && 0 <= i < function.blocks[b].insts.len() && (
            #[trigger] after.blocks[b].insts[i]) != function.blocks[b].insts[i] implies exists|
            k: int,
        |
            0 <= k < found.len() && (#[trigger] found[k]).0.0 == b && without_check(
                function.blocks[b].insts[i].kind,
                found[k].1,
                found[k].2,
            ) is Some by {
            let original = function.blocks[b].insts[i];
            let middle = before.blocks[b].insts[i];
            assert(same_or_unchecked(original, middle));
            if middle != original {
                let k = choose|k: int|
                    0 <= k < shorter.len() && (#[trigger] shorter[k]).0.0 == b && without_check(
                        original.kind,
                        shorter[k].1,
                        shorter[k].2,
                    ) is Some;
                assert(found[k] == shorter[k]);
            } else {
                assert(b == at);
                assert(without_check(middle.kind, last.1, last.2) is Some);
                assert(found[found.len() - 1].0.0 == b);
            }
        }
    }
}

proof fn proofs_come_from_headers(function: FunctionView, count: nat, k: int)
    requires
        0 <= k < proved(function, count).len(),
    ensures
        exists|header: int|
            0 <= header < count && #[trigger] proof_at(function, header) == Some(
                proved(function, count)[k],
            ),
    decreases count,
{
    if count > 0 {
        let before = proved(function, (count - 1) as nat);
        if k < before.len() {
            proofs_come_from_headers(function, (count - 1) as nat, k);
            let header = choose|header: int|
                0 <= header < count - 1 && #[trigger] proof_at(function, header) == Some(before[k]);
            assert(proof_at(function, header) == Some(proved(function, count)[k]));
        } else {
            assert(proof_at(function, count - 1) == Some(proved(function, count)[k]));
        }
    }
}

proof fn proofs_within(function: FunctionView, count: nat)
    requires
        function.well_formed(),
        count <= function.blocks.len(),
    ensures
        forall|k: int|
            0 <= k < proved(function, count).len() ==> (#[trigger] proved(function, count)[k]).0.0
                < function.blocks.len(),
{
    assert forall|k: int| 0 <= k < proved(function, count).len() implies (
    #[trigger] proved(function, count)[k]).0.0 < function.blocks.len() by {
        proofs_come_from_headers(function, count, k);
        let header = choose|header: int|
            0 <= header < count && #[trigger] proof_at(function, header) == Some(
                proved(function, count)[k],
            );
        let term = function.blocks[header].term->Some_0;
        assert(function.blocks[header].within(
            function.values.len(),
            function.slots.len(),
            function.blocks.len(),
        ));
        assert(term.targets()[0].within(function.values.len(), function.blocks.len()));
    }
}

/// Nothing changes but that some accesses lose their checks, and each that
/// does is one a loop of the function proves in range: the block it stands in
/// is where a branch goes while the index is below the length of that list.
pub proof fn elimination_only_unchecks(function: FunctionView)
    requires
        function.well_formed(),
    ensures
        only_unchecks(function, eliminated(function)),
        forall|b: int, i: int|
            0 <= b < function.blocks.len() && 0 <= i < function.blocks[b].insts.len() && (
            #[trigger] eliminated(function).blocks[b].insts[i]) != function.blocks[b].insts[i]
                ==> exists|header: int|
                0 <= header < function.blocks.len() && (#[trigger] proof_at(
                    function,
                    header,
                ) matches Some(found) && found.0.0 == b && without_check(
                    function.blocks[b].insts[i].kind,
                    found.1,
                    found.2,
                ) is Some),
{
    let count = function.blocks.len();
    let found = proved(function, count);
    proofs_within(function, count);
    proofs_only_uncheck(function, found);
    assert forall|b: int, i: int|
        0 <= b < function.blocks.len() && 0 <= i < function.blocks[b].insts.len() && (
        #[trigger] eliminated(function).blocks[b].insts[i]) != function.blocks[b].insts[i] implies
        exists|header: int|
            0 <= header < function.blocks.len() && (#[trigger] proof_at(function, header) matches
            Some(found) && found.0.0 == b && without_check(
                function.blocks[b].insts[i].kind,
                found.1,
                found.2,
            ) is Some) by {
        let k = choose|k: int|
            0 <= k < found.len() && (#[trigger] found[k]).0.0 == b && without_check(
                function.blocks[b].insts[i].kind,
                found[k].1,
                found[k].2,
            ) is Some;
        proofs_come_from_headers(function, count, k);
        let header = choose|header: int|
            0 <= header < count && #[trigger] proof_at(function, header) == Some(found[k]);
        assert(proof_at(function, header) == Some(found[k]));
    }
}

proof fn targets_differ(function: FunctionView, count: nat)
    requires
        count <= function.blocks.len(),
    ensures
        forall|j: int, k: int|
            0 <= j < k < proved(function, count).len() ==> (#[trigger] proved(function, count)[j]).0
                != (#[trigger] proved(function, count)[k]).0,
    decreases count,
{
    if count > 0 {
        let fewer = (count - 1) as nat;
        targets_differ(function, fewer);
        let before = proved(function, fewer);
        let found = proved(function, count);
        assert forall|j: int, k: int| 0 <= j < k < found.len() implies (#[trigger] found[j]).0 != (
        #[trigger] found[k]).0 by {
            if k < before.len() {
                assert(before[j].0 != before[k].0);
            } else {
                proofs_come_from_headers(function, fewer, j);
                let header = choose|header: int|
                    0 <= header < fewer && #[trigger] proof_at(function, header) == Some(before[j]);
                assert(proof_at(function, count - 1) == Some(found[k]));
                assert(enters(function, count - 1, 0, found[k].0));
                assert(enters(function, header, 0, found[j].0));
            }
        }
    }
}

proof fn proofs_apply_once(function: FunctionView, found: Seq<(BlockId, Value, Value)>, b: int)
    requires
        forall|i: int| 0 <= i < found.len() ==> (#[trigger] found[i]).0.0 < function.blocks.len(),
        forall|j: int, k: int|
            0 <= j < k < found.len() ==> (#[trigger] found[j]).0 != (#[trigger] found[k]).0,
        0 <= b < function.blocks.len(),
    ensures
        use_proofs(function, found).blocks.len() == function.blocks.len(),
        use_proofs(function, found).blocks[b] == function.blocks[b] || exists|k: int|
            0 <= k < found.len() && (#[trigger] found[k]).0.0 == b && use_proofs(
                function,
                found,
            ).blocks[b].insts == unchecked(function.blocks[b].insts, found[k].1, found[k].2),
        (forall|k: int| 0 <= k < found.len() ==> (#[trigger] found[k]).0.0 != b) ==> use_proofs(
            function,
            found,
        ).blocks[b] == function.blocks[b],
    decreases found.len(),
{
    if found.len() > 0 {
        let shorter = found.drop_last();
        let last = found.last();
        assert forall|i: int| 0 <= i < shorter.len() implies (#[trigger] shorter[i]).0.0
            < function.blocks.len() by {
            assert(shorter[i] == found[i]);
        }
        assert forall|j: int, k: int| 0 <= j < k < shorter.len() implies (
        #[trigger] shorter[j]).0 != (#[trigger] shorter[k]).0 by {
            assert(found[j].0 != found[k].0);
        }
        assert(found[found.len() - 1] == last);
        proofs_apply_once(function, shorter, b);
        if last.0.0 == b {
            assert forall|k: int| 0 <= k < shorter.len() implies (#[trigger] shorter[k]).0.0
                != b by {
                assert(found[k].0 != found[found.len() - 1].0);
            }
        } else if use_proofs(function, shorter).blocks[b] != function.blocks[b] {
            let k = choose|k: int|
                0 <= k < shorter.len() && (#[trigger] shorter[k]).0.0 == b && use_proofs(
                    function,
                    shorter,
                ).blocks[b].insts == unchecked(
                    function.blocks[b].insts,
                    shorter[k].1,
                    shorter[k].2,
                );
            assert(found[k] == shorter[k]);
        }
    }
}

/// Whether the access at `at` of the block `b` is in range whenever it is reached.
/// The block is entered only where the test at the end of the block `header` holds.
/// That test says that the index is below the length of the list, as the list is
/// at the end of `header`. The index only ever grows from something not negative.
/// And what runs in the block before the access leaves the length as it is.
pub open spec fn guarded(
    function: FunctionView,
    header: int,
    b: int,
    at: int,
    receiver: Value,
    index: Value,
) -> bool {
    &&& 0 <= header < function.blocks.len()
    &&& function.blocks[header].term matches Some(TerminatorView::Branch { condition, then, .. })
        && then.block.0 == b && compared(function, header, condition) == Some((index, receiver))
        && only_way_in(function, header, then.block)
    &&& list_like(function.type_of(receiver))
    &&& ascends(function, BlockId(header as u32), index)
    &&& forall|j: int|
        0 <= j < at ==> !((#[trigger] function.blocks[b].insts[j]).kind.effect() is State)
            || without_check(function.blocks[b].insts[j].kind, receiver, index) is Some
}

/// An access that loses its check is guarded: it is of the list, and at the index,
/// that a test proves in range for the block it stands in.
pub proof fn unchecked_access_is_guarded(function: FunctionView, b: int, i: int)
    requires
        function.well_formed(),
        0 <= b < function.blocks.len(),
        0 <= i < function.blocks[b].insts.len(),
        eliminated(function).blocks[b].insts[i] != function.blocks[b].insts[i],
    ensures
        exists|header: int, receiver: Value, index: Value|
            #[trigger] guarded(function, header, b, i, receiver, index) && without_check(
                function.blocks[b].insts[i].kind,
                receiver,
                index,
            ) == Some(eliminated(function).blocks[b].insts[i].kind),
{
    let count = function.blocks.len();
    let found = proved(function, count);
    proofs_within(function, count);
    targets_differ(function, count);
    proofs_apply_once(function, found, b);
    let k = choose|k: int|
        0 <= k < found.len() && (#[trigger] found[k]).0.0 == b && use_proofs(
            function,
            found,
        ).blocks[b].insts == unchecked(function.blocks[b].insts, found[k].1, found[k].2);
    unchecked_only_while_unchanged(function.blocks[b].insts, found[k].1, found[k].2, i);
    proofs_come_from_headers(function, count, k);
    let header = choose|header: int|
        0 <= header < count && #[trigger] proof_at(function, header) == Some(found[k]);
    assert(guarded(function, header, b, i, found[k].1, found[k].2));
}

/// A well-formed function stays well formed.
pub proof fn elimination_keeps_well_formed(function: FunctionView)
    requires
        function.well_formed(),
    ensures
        eliminated(function).well_formed(),
{
    elimination_only_unchecks(function);
    let after = eliminated(function);
    let values = function.values.len();
    let slots = function.slots.len();
    assert forall|b: int| 0 <= b < after.blocks.len() implies (#[trigger] after.blocks[b]).within(
        values,
        slots,
        after.blocks.len(),
    ) by {
        assert(function.blocks[b].within(values, slots, function.blocks.len()));
        assert forall|i: int| 0 <= i < after.blocks[b].insts.len() implies (
        #[trigger] after.blocks[b].insts[i]).within(values, slots) by {
            assert(function.blocks[b].insts[i].within(values, slots));
            assert(same_or_unchecked(function.blocks[b].insts[i], after.blocks[b].insts[i]));
        }
    }
}

pub(crate) proof fn a_place_is_there(blocks: Seq<BlockView>, value: Value)
    ensures
        match place(blocks, value) {
            Some((b, i)) => 0 <= b < blocks.len() && 0 <= i < blocks[b].insts.len()
                && blocks[b].insts[i].result == Some(value),
            None => forall|b: int, i: int|
                0 <= b < blocks.len() && 0 <= i < blocks[b].insts.len() ==> (
                #[trigger] blocks[b].insts[i]).result != Some(value),
        },
    decreases blocks.len(),
{
    if blocks.len() > 0 {
        a_place_among_is_there(blocks.last().insts, value);
        let shorter = blocks.drop_last();
        a_place_is_there(shorter, value);
        if place(blocks, value) is None {
            assert forall|b: int, i: int|
                0 <= b < blocks.len() && 0 <= i < blocks[b].insts.len() implies (
            #[trigger] blocks[b].insts[i]).result != Some(value) by {
                if b < shorter.len() {
                    assert(shorter[b].insts[i].result != Some(value));
                }
            }
        }
    }
}

proof fn a_place_among_is_there(insts: Seq<InstView>, value: Value)
    ensures
        match place_among(insts, value) {
            Some(i) => 0 <= i < insts.len() && insts[i].result == Some(value),
            None => forall|i: int|
                0 <= i < insts.len() ==> (#[trigger] insts[i]).result != Some(value),
        },
    decreases insts.len(),
{
    if insts.len() > 0 {
        let shorter = insts.drop_last();
        a_place_among_is_there(shorter, value);
        if place_among(insts, value) is None {
            assert forall|i: int| 0 <= i < insts.len() implies (#[trigger] insts[i]).result
                != Some(value) by {
                if i < shorter.len() {
                    assert(shorter[i].result != Some(value));
                }
            }
        }
    }
}

/// Where an instruction and its block stand, as mathematical integers.
pub open spec fn place_view(found: Option<(usize, usize)>) -> Option<(int, int)> {
    match found {
        Some((b, i)) => Some((b as int, i as int)),
        None => None,
    }
}

fn find_place(function: &Function, value: Value) -> (found: Option<(usize, usize)>)
    ensures
        place_view(found) == place(function@.blocks, value),
        found matches Some((b, i)) ==> b < function.blocks@.len() && i
            < function.blocks@[b as int].insts@.len(),
{
    let ghost blocks = function@.blocks;
    let mut b: usize = function.blocks.len();
    assert(blocks.take(b as int) =~= blocks);
    while b > 0
        invariant
            b <= function.blocks.len(),
            blocks == function@.blocks,
            place(blocks, value) == place(blocks.take(b as int), value),
        decreases b,
    {
        b -= 1;
        let block = &function.blocks[b];
        let ghost insts = block@.insts;
        proof {
            assert(blocks.take(b + 1).drop_last() =~= blocks.take(b as int));
            assert(blocks.take(b + 1).last() == block@);
            assert(insts.take(insts.len() as int) =~= insts);
        }
        let mut i: usize = block.insts.len();
        while i > 0
            invariant
                b < function.blocks.len(),
                *block == function.blocks@[b as int],
                i <= block.insts.len(),
                insts == block@.insts,
                place_among(insts, value) == place_among(insts.take(i as int), value),
                place(blocks, value) == match place_among(insts, value) {
                    Some(at) => Some((b as int, at)),
                    None => place(blocks.take(b as int), value),
                },
                blocks == function@.blocks,
            decreases i,
        {
            i -= 1;
            proof {
                assert(insts.take(i + 1).drop_last() =~= insts.take(i as int));
                assert(insts.take(i + 1).last() == block.insts@[i as int]@);
            }
            if let Some(result) = block.insts[i].result {
                if result == value {
                    return Some((b, i));
                }
            }
        }
    }
    None
}

/// What produces `value`, where an instruction of the function does.
pub fn definition_of<'a>(function: &'a Function, value: Value) -> (found: Option<&'a InstKind>)
    ensures
        match found {
            Some(kind) => definition(function@.blocks, value) == Some(kind@),
            None => definition(function@.blocks, value) is None,
        },
{
    match find_place(function, value) {
        Some((b, i)) => {
            assert(function@.blocks[b as int].insts[i as int] == function.blocks@[b as int].insts@[
            i as int]@);
            Some(&function.blocks[b].insts[i].kind)
        },
        None => None,
    }
}

/// Whether a value of the type is a list, whose length is how many it holds.
pub fn is_list(ty: &Ty) -> (list: bool)
    ensures
        list == list_like(ty@),
{
    match ty {
        Ty::Builtin { kind, .. } => matches!(kind, Builtin::List | Builtin::FrozenList),
        _ => false,
    }
}

fn has_no_sign(bits: u64, ty: &Ty) -> (unsigned: bool)
    ensures
        unsigned == spells_no_sign(bits, ty@),
{
    match ty {
        Ty::Int(IntTy::I8) => bits <= 0x7f,
        Ty::Int(IntTy::I16) => bits <= 0x7fff,
        Ty::Int(IntTy::I32) | Ty::Int(IntTy::Isize) => bits <= 0x7fff_ffff,
        Ty::Int(_) => bits <= i64::MAX as u64,
        _ => false,
    }
}

fn find_count(function: &Function, value: Value) -> (found: Option<u64>)
    ensures
        found == count_of(function@, value),
{
    match definition_of(function, value) {
        Some(InstKind::Const(Const::Int(held))) => if (value.0 as usize) < function.values.len()
            && has_no_sign(*held, function.type_of(value)) {
            Some(*held)
        } else {
            None
        },
        _ => None,
    }
}

/// Whether `value` is a constant above zero.
pub fn positive_integer(function: &Function, value: Value) -> (positive: bool)
    ensures
        positive == is_positive(function@, value),
{
    match find_count(function, value) {
        Some(held) => held > 0,
        None => false,
    }
}

/// Whether `index` is a parameter of `header` that starts at something not
/// negative and only ever grows.
pub fn ascending_index(function: &Function, header: BlockId, index: Value) -> (ascending: bool)
    requires
        header.0 < function@.blocks.len(),
    ensures
        ascending == ascends(function@, header, index),
{
    if header == function.entry {
        return false;
    }
    let params = &function.block(header).params;
    let mut at: usize = 0;
    while at < params.len() && params[at] != index
        invariant
            at <= params.len(),
            forall|j: int| 0 <= j < at ==> params@[j] != index,
        decreases params.len() - at,
    {
        at += 1;
    }
    if at == params.len() {
        proof {
            absent_has_no_position(params@, index);
        }
        return false;
    }
    proof {
        first_is_position(params@, index, at as int);
    }
    let mut seed = false;
    let mut step = false;
    let mut b: usize = 0;
    while b < function.blocks.len()
        invariant
            b <= function.blocks.len(),
            position(function@.block(header).params, index) == Some(at as int),
            seed ==> exists|from: int, which: int| #[trigger]
                enters(function@, from, which, header) && seeds(
                    function@,
                    edge(function@, from, which),
                    at as int,
                ),
            step ==> exists|from: int, which: int| #[trigger]
                enters(function@, from, which, header) && steps(
                    function@,
                    edge(function@, from, which),
                    at as int,
                    index,
                ),
            forall|from: int, which: int| #[trigger]
                enters(function@, from, which, header) && from < b ==> {
                    ||| seed && seeds(function@, edge(function@, from, which), at as int)
                    ||| step && steps(function@, edge(function@, from, which), at as int, index)
                },
        decreases function.blocks.len() - b,
    {
        if let Some(term) = &function.blocks[b].term {
            let targets = term.targets();
            assert(function@.blocks[b as int].term == Some(term@));
            let mut t: usize = 0;
            while t < targets.len()
                invariant
                    b < function.blocks.len(),
                    t <= targets.len(),
                    function@.blocks[b as int].term == Some(term@),
                    target_views(targets@) == term@.targets(),
                    position(function@.block(header).params, index) == Some(at as int),
                    seed ==> exists|from: int, which: int| #[trigger]
                        enters(function@, from, which, header) && seeds(
                            function@,
                            edge(function@, from, which),
                            at as int,
                        ),
                    step ==> exists|from: int, which: int| #[trigger]
                        enters(function@, from, which, header) && steps(
                            function@,
                            edge(function@, from, which),
                            at as int,
                            index,
                        ),
                    forall|from: int, which: int| #[trigger]
                        enters(function@, from, which, header) && (from < b || from == b && which
                            < t) ==> {
                            ||| seed && seeds(function@, edge(function@, from, which), at as int)
                            ||| step && steps(
                                function@,
                                edge(function@, from, which),
                                at as int,
                                index,
                            )
                        },
                decreases targets.len() - t,
            {
                let target = targets[t];
                assert(term@.targets()[t as int] == target@);
                if target.block == header {
                    assert(enters(function@, b as int, t as int, header));
                    assert(edge(function@, b as int, t as int) == target@);
                    if at >= target.args.len() {
                        return false;
                    }
                    match definition_of(function, target.args[at]) {
                        Some(InstKind::Const(Const::Int(_))) => {
                            if find_count(function, target.args[at]).is_none() {
                                return false;
                            }
                            seed = true;
                        },
                        Some(InstKind::Binary { op, left, right }) => {
                            if !matches!(op, BinaryOp::Add) || *left != index || !positive_integer(
                                function,
                                *right,
                            ) {
                                return false;
                            }
                            step = true;
                        },
                        _ => {
                            return false;
                        },
                    }
                }
                t += 1;
            }
        }
        b += 1;
    }
    seed && step
}

fn may_resize(kind: &InstKind) -> (may: bool)
    ensures
        may == resizes(kind@),
{
    match kind {
        InstKind::Call { .. }
        | InstKind::CallIndirect { .. }
        | InstKind::CallVirtual { .. }
        | InstKind::ListPush { .. }
        | InstKind::ListPop { .. }
        | InstKind::ListInsert { .. }
        | InstKind::ListRemoveAt { .. }
        | InstKind::Clear { .. }
        | InstKind::ReleaseSlice { .. }
        | InstKind::Store { .. }
        | InstKind::Await { .. }
        | InstKind::CancellationPoint
        | InstKind::Cancel { .. } => true,
        _ => false,
    }
}

/// How many of the blocks are not marked.
pub open spec fn unmarked(marks: Seq<bool>) -> nat
    decreases marks.len(),
{
    if marks.len() == 0 {
        0
    } else if marks.last() {
        unmarked(marks.drop_last())
    } else {
        unmarked(marks.drop_last()) + 1
    }
}

proof fn marking_leaves_fewer(marks: Seq<bool>, b: int)
    requires
        0 <= b < marks.len(),
        !marks[b],
    ensures
        unmarked(marks.update(b, true)) < unmarked(marks),
    decreases marks.len(),
{
    let after = marks.update(b, true);
    if b == marks.len() - 1 {
        assert(after.drop_last() =~= marks.drop_last());
    } else {
        assert(after.drop_last() =~= marks.drop_last().update(b, true));
        marking_leaves_fewer(marks.drop_last(), b);
    }
}

pub(crate) proof fn a_way_goes_on(function: FunctionView, stop: int, header: int, from: int, to: int)
    requires
        joined(function, from, to),
        to != stop,
        on_the_way(function, stop, header, to),
    ensures
        on_the_way(function, stop, header, from),
{
    let path = choose|path: Seq<int>| #[trigger]
        leads(function, path, stop, header) && path[0] == to;
    let longer = seq![from] + path;
    assert forall|i: int| 0 <= i < longer.len() - 1 implies joined(
        function,
        #[trigger] longer[i],
        longer[i + 1],
    ) by {
        if i > 0 {
            assert(joined(function, path[i - 1], path[i]));
        }
    }
    assert forall|i: int| 0 < i < longer.len() implies #[trigger] longer[i] != stop by {
        if i > 1 {
            assert(path[i - 1] != stop);
        }
    }
    assert(leads(function, longer, stop, header));
}

proof fn what_is_on_the_way_is_marked(
    function: FunctionView,
    stop: int,
    header: int,
    marks: Seq<bool>,
    path: Seq<int>,
)
    requires
        leads(function, path, stop, header),
        0 <= header < marks.len(),
        marks.len() == function.blocks.len(),
        marks[header],
        forall|from: int, to: int|
            #[trigger] joined(function, from, to) && 0 <= to < marks.len() && marks[to] && to != stop
                ==> marks[from],
    ensures
        0 <= path[0] < marks.len() && marks[path[0]],
    decreases path.len(),
{
    if path.len() > 1 {
        let rest = path.skip(1);
        assert forall|i: int| 0 <= i < rest.len() - 1 implies joined(
            function,
            #[trigger] rest[i],
            rest[i + 1],
        ) by {
            assert(joined(function, path[i + 1], path[i + 2]));
        }
        assert forall|i: int| 0 < i < rest.len() implies #[trigger] rest[i] != stop by {
            assert(path[i + 1] != stop);
        }
        what_is_on_the_way_is_marked(function, stop, header, marks, rest);
        assert(joined(function, path[0], path[1]));
        assert(path[1] != stop);
    }
}

fn goes_to_marked(function: &Function, b: usize, marks: &Vec<bool>, stop: usize) -> (found: bool)
    requires
        function@.well_formed(),
        b < function@.blocks.len(),
        marks@.len() == function@.blocks.len(),
    ensures
        found == exists|to: int|
            0 <= to < marks@.len() && #[trigger] joined(function@, b as int, to) && marks@[to] && to
                != stop,
{
    if let Some(term) = &function.blocks[b].term {
        let targets = term.targets();
        proof {
            assert(function@.blocks[b as int].term == Some(term@));
            assert(function@.blocks[b as int].within(
                function@.values.len(),
                function@.slots.len(),
                function@.blocks.len(),
            ));
        }
        let mut t: usize = 0;
        while t < targets.len()
            invariant
                function@.well_formed(),
                b < function@.blocks.len(),
                marks@.len() == function@.blocks.len(),
                t <= targets.len(),
                function@.blocks[b as int].term == Some(term@),
                term@.within(function@.values.len(), function@.blocks.len()),
                target_views(targets@) == term@.targets(),
                forall|which: int|
                    0 <= which < t ==> !(marks@[(#[trigger] term@.targets()[which]).block.0 as int]
                        && term@.targets()[which].block.0 != stop),
            decreases targets.len() - t,
        {
            assert(term@.targets()[t as int] == targets@[t as int]@);
            assert(term@.targets()[t as int].within(
                function@.values.len(),
                function@.blocks.len(),
            ));
            let to = targets[t].block.0 as usize;
            if marks[to] && to != stop {
                assert(joined(function@, b as int, to as int));
                return true;
            }
            t += 1;
        }
    }
    false
}

/// Which blocks are on a way to `header` that comes by `stop` at most where it
/// starts.
fn mark_ways(function: &Function, stop: usize, header: usize) -> (marks: Vec<bool>)
    requires
        function@.well_formed(),
        header < function@.blocks.len(),
    ensures
        marks@.len() == function@.blocks.len(),
        forall|b: int|
            0 <= b < marks@.len() ==> (#[trigger] marks@[b]) == on_the_way(
                function@,
                stop as int,
                header as int,
                b,
            ),
{
    let count = function.blocks.len();
    let mut marks: Vec<bool> = Vec::new();
    while marks.len() < count
        invariant
            marks@.len() <= count,
            count == function@.blocks.len(),
            forall|b: int| 0 <= b < marks@.len() ==> !(#[trigger] marks@[b]),
        decreases count - marks.len(),
    {
        marks.push(false);
    }
    marks.set(header, true);
    assert(on_the_way(function@, stop as int, header as int, header as int)) by {
        assert(leads(function@, seq![header as int], stop as int, header as int));
    }
    let mut changed = true;
    while changed
        invariant
            function@.well_formed(),
            header < count,
            count == function@.blocks.len(),
            marks@.len() == count,
            marks@[header as int],
            forall|b: int|
                0 <= b < marks@.len() && (#[trigger] marks@[b]) ==> on_the_way(
                    function@,
                    stop as int,
                    header as int,
                    b,
                ),
            !changed ==> forall|from: int, to: int|
                #[trigger] joined(function@, from, to) && 0 <= to < marks@.len() && marks@[to] && to
                    != stop ==> marks@[from],
        decreases
                unmarked(marks@),
                if changed {
                    1int
                } else {
                    0int
                },
    {
        let ghost before = marks@;
        changed = false;
        let mut b: usize = 0;
        while b < count
            invariant
                function@.well_formed(),
                header < count,
                count == function@.blocks.len(),
                b <= count,
                marks@.len() == count,
                before.len() == count,
                marks@[header as int],
                forall|b: int|
                    0 <= b < marks@.len() && (#[trigger] marks@[b]) ==> on_the_way(
                        function@,
                        stop as int,
                        header as int,
                        b,
                    ),
                changed ==> unmarked(marks@) < unmarked(before),
                !changed ==> marks@ == before,
                !changed ==> forall|from: int, to: int|
                    #[trigger] joined(function@, from, to) && from < b && 0 <= to < marks@.len()
                        && marks@[to] && to != stop ==> marks@[from],
            decreases count - b,
        {
            if !marks[b] && goes_to_marked(function, b, &marks, stop) {
                proof {
                    let to = choose|to: int|
                        0 <= to < marks@.len() && #[trigger] joined(function@, b as int, to)
                            && marks@[to] && to != stop;
                    a_way_goes_on(function@, stop as int, header as int, b as int, to);
                    marking_leaves_fewer(marks@, b as int);
                }
                marks.set(b, true);
                changed = true;
            }
            b += 1;
        }
    }
    proof {
        assert forall|b: int| 0 <= b < marks@.len() implies (#[trigger] marks@[b]) == on_the_way(
            function@,
            stop as int,
            header as int,
            b,
        ) by {
            if on_the_way(function@, stop as int, header as int, b) {
                let path = choose|path: Seq<int>| #[trigger]
                    leads(function@, path, stop as int, header as int) && path[0] == b;
                what_is_on_the_way_is_marked(
                    function@,
                    stop as int,
                    header as int,
                    marks@,
                    path,
                );
            }
        }
    }
    marks
}

fn does_last(function: &Function, b: usize, at: usize, header: usize) -> (still: bool)
    requires
        function@.well_formed(),
        header < function@.blocks.len(),
    ensures
        still == lasts(function@, b as int, at as int, header as int),
{
    let marks = mark_ways(function, b, header);
    let entry = function.entry.0 as usize;
    if marks[entry] && entry != b {
        return false;
    }
    let mut c: usize = 0;
    while c < function.blocks.len()
        invariant
            c <= function.blocks.len(),
            marks@.len() == function@.blocks.len(),
            forall|b2: int|
                0 <= b2 < marks@.len() ==> (#[trigger] marks@[b2]) == on_the_way(
                    function@,
                    b as int,
                    header as int,
                    b2,
                ),
            forall|d: int, j: int|
                0 <= d < c && 0 <= j < function@.blocks[d].insts.len() && on_the_way(
                    function@,
                    b as int,
                    header as int,
                    d,
                ) && (d == b ==> j > at) ==> !resizes(
                    (#[trigger] function@.blocks[d].insts[j]).kind,
                ),
        decreases function.blocks.len() - c,
    {
        if marks[c] {
            let block = &function.blocks[c];
            let mut j: usize = 0;
            while j < block.insts.len()
                invariant
                    c < function.blocks.len(),
                    *block == function.blocks@[c as int],
                    j <= block.insts.len(),
                    forall|k: int|
                        0 <= k < j && (c == b ==> k > at) ==> !resizes(
                            (#[trigger] function@.blocks[c as int].insts[k]).kind,
                        ),
                    marks@.len() == function@.blocks.len(),
                    marks@[c as int] == on_the_way(
                        function@,
                        b as int,
                        header as int,
                        c as int,
                    ),
                    marks@[c as int],
                decreases block.insts.len() - j,
            {
                assert(function@.blocks[c as int].insts[j as int] == block.insts@[j as int]@);
                if (c != b || j > at) && may_resize(&block.insts[j].kind) {
                    return false;
                }
                j += 1;
            }
        }
        c += 1;
    }
    true
}

fn find_length(function: &Function, header: usize, before: usize, value: Value) -> (found: Option<
    Value,
>)
    requires
        function@.well_formed(),
        header < function@.blocks.len(),
    ensures
        found == length_of(function@, header as int, before as int, value),
{
    match find_place(function, value) {
        Some((b, at)) => {
            assert(function@.blocks[b as int].insts[at as int] == function.blocks@[
            b as int].insts@[at as int]@);
            match &function.blocks[b].insts[at].kind {
                InstKind::Length { receiver } => if (b != header || at < before) && does_last(
                    function,
                    b,
                    at,
                    header,
                ) {
                    Some(*receiver)
                } else {
                    None
                },
                _ => None,
            }
        },
        None => None,
    }
}

fn find_comparison(function: &Function, header: usize, condition: Value) -> (found: Option<
    (Value, Value),
>)
    requires
        function@.well_formed(),
        header < function@.blocks.len(),
    ensures
        found == compared(function@, header as int, condition),
{
    match find_place(function, condition) {
        Some((b, at)) => {
            assert(function@.blocks[b as int].insts[at as int] == function.blocks@[
            b as int].insts@[at as int]@);
            match &function.blocks[b].insts[at].kind {
                InstKind::Binary { op, left, right } => if b == header && matches!(
                    op,
                    BinaryOp::Less
                ) {
                    match find_length(function, header, at, *right) {
                        Some(receiver) => Some((*left, receiver)),
                        None => None,
                    }
                } else {
                    None
                },
                _ => None,
            }
        },
        None => None,
    }
}

fn entered_only_from(function: &Function, header: usize, block: BlockId) -> (only: bool)
    ensures
        only == only_way_in(function@, header as int, block),
{
    if block == function.entry {
        return false;
    }
    let mut b: usize = 0;
    while b < function.blocks.len()
        invariant
            b <= function.blocks.len(),
            forall|from: int, which: int| #[trigger]
                enters(function@, from, which, block) && from < b ==> from == header && which == 0,
        decreases function.blocks.len() - b,
    {
        if let Some(term) = &function.blocks[b].term {
            let targets = term.targets();
            assert(function@.blocks[b as int].term == Some(term@));
            let mut t: usize = 0;
            while t < targets.len()
                invariant
                    b < function.blocks.len(),
                    t <= targets.len(),
                    function@.blocks[b as int].term == Some(term@),
                    target_views(targets@) == term@.targets(),
                    forall|from: int, which: int| #[trigger]
                        enters(function@, from, which, block) && (from < b || from == b && which
                            < t) ==> from == header && which == 0,
                decreases targets.len() - t,
            {
                assert(term@.targets()[t as int] == targets@[t as int]@);
                if targets[t].block == block && (b != header || t != 0) {
                    assert(enters(function@, b as int, t as int, block));
                    return false;
                }
                t += 1;
            }
        }
        b += 1;
    }
    true
}

fn proof_of(function: &Function, header: usize) -> (found: Option<(BlockId, Value, Value)>)
    requires
        function@.well_formed(),
        header < function@.blocks.len(),
    ensures
        found == proof_at(function@, header as int),
{
    let block = &function.blocks[header];
    match &block.term {
        Some(Terminator::Branch { condition, then, .. }) => match find_comparison(
            function,
            header,
            *condition,
        ) {
            Some((index, receiver)) => {
                proof {
                    compared_within(function@, header as int, *condition);
                }
                if is_list(function.type_of(receiver)) && ascending_index(
                    function,
                    BlockId(header as u32),
                    index,
                ) && entered_only_from(function, header, then.block) {
                    Some((then.block, receiver, index))
                } else {
                    None
                }
            },
            None => None,
        },
        _ => None,
    }
}

proof fn compared_within(function: FunctionView, header: int, condition: Value)
    requires
        function.well_formed(),
    ensures
        compared(function, header, condition) matches Some(found) ==> found.1.0
            < function.values.len(),
{
    if compared(function, header, condition) is Some {
        a_place_is_there(function.blocks, condition);
        let (b, at) = place(function.blocks, condition)->Some_0;
        let right = function.blocks[b].insts[at].kind->Binary_right;
        a_place_is_there(function.blocks, right);
        let (d, p) = place(function.blocks, right)->Some_0;
        assert(function.blocks[d].within(
            function.values.len(),
            function.slots.len(),
            function.blocks.len(),
        ));
        assert(function.blocks[d].insts[p].within(function.values.len(), function.slots.len()));
    }
}

fn replacement(kind: &InstKind, receiver: Value, index: Value) -> (replaced: Option<InstKind>)
    ensures
        match replaced {
            Some(after) => without_check(kind@, receiver, index) == Some(after@),
            None => without_check(kind@, receiver, index) is None,
        },
{
    match kind {
        InstKind::GetIndex { receiver: held, index: at } => if *held == receiver && *at == index {
            Some(InstKind::GetUncheckedIndex { receiver: *held, index: *at })
        } else {
            None
        },
        InstKind::SetIndex { receiver: held, index: at, value } => if *held == receiver && *at
            == index {
            Some(InstKind::SetUncheckedIndex { receiver: *held, index: *at, value: *value })
        } else {
            None
        },
        _ => None,
    }
}

fn uncheck(insts: &mut Vec<Inst>, receiver: Value, index: Value)
    ensures
        views(final(insts)@) == unchecked(views(old(insts)@), receiver, index),
{
    let ghost whole = views(insts@);
    let mut i: usize = 0;
    proof {
        assert(whole.skip(0) =~= whole);
        assert(unchecked(whole, receiver, index) =~= views(insts@).take(0) + unchecked(
            whole,
            receiver,
            index,
        ));
    }
    while i < insts.len()
        invariant
            i <= insts.len(),
            insts.len() == whole.len(),
            whole == views(old(insts)@),
            views(insts@).skip(i as int) == whole.skip(i as int),
            unchecked(whole, receiver, index) == views(insts@).take(i as int) + unchecked(
                whole.skip(i as int),
                receiver,
                index,
            ),
        decreases insts.len() - i,
    {
        let ghost before = views(insts@);
        let ghost rest = whole.skip(i as int);
        proof {
            assert(rest[0] == before.skip(i as int)[0]);
            assert(rest[0] == insts@[i as int]@);
            assert(rest.skip(1) =~= whole.skip(i + 1));
        }
        match replacement(&insts[i].kind, receiver, index) {
            Some(kind) => {
                let inst = Inst { result: insts[i].result, kind, span: insts[i].span };
                insts.set(i, inst);
                proof {
                    assert(views(insts@) =~= before.update(i as int, inst@));
                    assert forall|j: int| 0 <= j < whole.len() - (i + 1) implies #[trigger] views(
                        insts@,
                    ).skip(i + 1)[j] == whole.skip(i + 1)[j] by {
                        assert(before.skip(i as int)[j + 1] == whole.skip(i as int)[j + 1]);
                    }
                    assert(views(insts@).skip(i + 1) =~= whole.skip(i + 1));
                    assert(before.take(i as int) + (seq![inst@] + unchecked(
                        whole.skip(i + 1),
                        receiver,
                        index,
                    )) =~= views(insts@).take(i + 1) + unchecked(
                        whole.skip(i + 1),
                        receiver,
                        index,
                    ));
                }
            },
            None => {
                if matches!(insts[i].kind.effect(), Effect::State) {
                    proof {
                        assert(unchecked(rest, receiver, index) == rest);
                        assert(before.take(i as int) + before.skip(i as int) =~= before);
                    }
                    return;
                }
                proof {
                    assert forall|j: int| 0 <= j < whole.len() - (i + 1) implies #[trigger] views(
                        insts@,
                    ).skip(i + 1)[j] == whole.skip(i + 1)[j] by {
                        assert(before.skip(i as int)[j + 1] == whole.skip(i as int)[j + 1]);
                    }
                    assert(views(insts@).skip(i + 1) =~= whole.skip(i + 1));
                    assert(before.take(i as int) + (seq![rest[0]] + unchecked(
                        whole.skip(i + 1),
                        receiver,
                        index,
                    )) =~= views(insts@).take(i + 1) + unchecked(
                        whole.skip(i + 1),
                        receiver,
                        index,
                    ));
                }
            },
        }
        i += 1;
    }
    assert(whole.skip(i as int) =~= Seq::empty());
    assert(views(insts@).take(i as int) + Seq::empty() =~= views(insts@));
}

/// Removes the bounds checks the function's loops make needless.
pub fn eliminate(function: &mut Function)
    requires
        old(function)@.well_formed(),
    ensures
        final(function)@ == eliminated(old(function)@),
{
    let ghost original = function@;
    let mut found: Vec<(BlockId, Value, Value)> = Vec::new();
    let mut header: usize = 0;
    while header < function.blocks.len()
        invariant
            header <= function.blocks.len(),
            function@ == original,
            original.well_formed(),
            found@ == proved(original, header as nat),
        decreases function.blocks.len() - header,
    {
        if let Some(held) = proof_of(function, header) {
            found.push(held);
        }
        header += 1;
    }
    proof {
        proofs_within(original, original.blocks.len());
    }
    let mut i: usize = 0;
    while i < found.len()
        invariant
            i <= found.len(),
            found@ == proved(original, original.blocks.len()),
            forall|k: int|
                0 <= k < found@.len() ==> (#[trigger] found@[k]).0.0 < original.blocks.len(),
            function@ == use_proofs(original, found@.take(i as int)),
            function@.blocks.len() == original.blocks.len(),
        decreases found.len() - i,
    {
        let (block, receiver, index) = found[i];
        uncheck(&mut function.block_mut(block).insts, receiver, index);
        assert(found@.take(i + 1).drop_last() =~= found@.take(i as int));
        i += 1;
    }
    assert(found@.take(i as int) =~= found@);
}

/// Removes the bounds checks the program's loops make needless.
pub fn run(program: &mut Program)
    requires
        old(program)@.functions_well_formed(),
    ensures
        final(program)@ == (ProgramView {
            functions: old(program)@.functions.map_values(|held: FunctionView| eliminated(held)),
            ..old(program)@
        }),
{
    let ghost original = program@;
    let mut i: usize = 0;
    while i < program.functions.len()
        invariant
            i <= program.functions.len() <= id_limit(),
            original.functions_well_formed(),
            program@ == (ProgramView { functions: program@.functions, ..original }),
            program@.functions.len() == original.functions.len(),
            forall|j: int|
                0 <= j < i ==> (#[trigger] program@.functions[j]) == eliminated(
                    original.functions[j],
                ),
            forall|j: int|
                i <= j < original.functions.len() ==> (#[trigger] program@.functions[j])
                    == original.functions[j],
        decreases program.functions.len() - i,
    {
        assert(original.functions[i as int].well_formed());
        let ghost before = program@;
        eliminate(program.function_mut(FuncId(i as u32)));
        assert(program@.functions =~= before.functions.update(
            i as int,
            eliminated(before.functions[i as int]),
        ));
        i += 1;
    }
    assert(program@.functions =~= original.functions.map_values(
        |held: FunctionView| eliminated(held),
    ));
}

} // verus!
