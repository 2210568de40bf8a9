//! Taking the suspension points of an asynchronous function out of its blocks.

use vstd::prelude::*;

use crate::inst::{
    case_views, maybe_term, term_within_grows, within_grows, Inst, InstKind, InstKindView,
    InstView, Target, TargetView, Terminator, TerminatorView, Value,
};
use crate::program::{id_limit, views, Block, BlockId, BlockView};
use crate::ty::{tys, Builtin, Ty, TyView};

use super::builder::{insts_within, term_within, Builder, BuilderView};
use super::machine::{expand_await, expand_await_code, expand_point, expand_point_code};
use super::runtime::Runtime;
use super::{result_of, result_of_view};

verus! {

/// Whether an instruction is one the function may be left and resumed at, or
/// stopped at.
pub open spec fn is_point(kind: InstKindView) -> bool {
    kind is Await || kind is CancellationPoint
}

/// Where the first of them sits, from `from` on.
pub open spec fn point_from(insts: Seq<InstView>, from: nat) -> Option<nat>
    decreases insts.len() - from,
{
    if from >= insts.len() {
        None
    } else if is_point(insts[from as int].kind) {
        Some(from)
    } else {
        point_from(insts, from + 1)
    }
}

/// How many of them there are, from `from` on.
pub open spec fn points_from(insts: Seq<InstView>, from: nat) -> nat
    decreases insts.len() - from,
{
    if from >= insts.len() {
        0
    } else if is_point(insts[from as int].kind) {
        points_from(insts, from + 1) + 1
    } else {
        points_from(insts, from + 1)
    }
}

/// How many of them the first `count` blocks hold.
pub open spec fn block_points(blocks: Seq<BlockView>, count: nat) -> nat
    decreases count,
{
    if count == 0 {
        0
    } else {
        block_points(blocks, (count - 1) as nat) + points_from(blocks[count - 1].insts, 0)
    }
}

/// Whether a point produces what follows it reads, and waits for a task where it
/// waits.
pub open spec fn point_fits(inst: InstView, values: Seq<TyView>) -> bool {
    is_point(inst.kind) ==> {
        &&& inst.result is Some
        &&& inst.kind matches InstKindView::Await { task } ==> {
            &&& task.0 < values.len()
            &&& values[task.0 as int] matches TyView::Builtin { kind: Builtin::Task, args }
                && args.len() > 0
        }
    }
}

/// The same of every instruction of every block.
pub open spec fn points_fit(blocks: Seq<BlockView>, values: Seq<TyView>) -> bool {
    forall|b: int, i: int|
        0 <= b < blocks.len() && 0 <= i < blocks[b].insts.len() ==> point_fits(
            #[trigger] blocks[b].insts[i],
            values,
        )
}

/// What awaiting a task of type `ty` gives.
pub open spec fn awaited_completion(ty: TyView) -> TyView {
    match ty {
        TyView::Builtin { kind, args } => result_of_view(args[0]),
        _ => ty,
    }
}

/// A function whose points are being taken out: what has been written, where
/// each state resumes, the blocks resumed at, and the tasks waited for.
pub struct Expansion {
    pub b: BuilderView,
    pub cases: Seq<(u64, TargetView)>,
    pub resumes: Seq<BlockId>,
    pub awaited: Seq<Value>,
}

/// An [`Expansion`] as it is carried out.
pub struct Expanding {
    pub b: Builder,
    pub cases: Vec<(u64, Target)>,
    pub resumes: Vec<BlockId>,
    pub awaited: Vec<Value>,
}

impl View for Expanding {
    type V = Expansion;

    open spec fn view(&self) -> Expansion {
        Expansion {
            b: self.b@,
            cases: case_views(self.cases@),
            resumes: self.resumes@,
            awaited: self.awaited@,
        }
    }
}

impl Expansion {
    /// Whether what has been written is sound, and everything recorded is in
    /// it.
    pub open spec fn sound(self) -> bool {
        &&& self.b.sound()
        &&& forall|i: int|
            0 <= i < self.cases.len() ==> (#[trigger] self.cases[i]).1.within(
                self.b.function.values.len(),
                self.b.function.blocks.len(),
            )
        &&& forall|i: int|
            0 <= i < self.resumes.len() ==> (#[trigger] self.resumes[i]).0
                < self.b.function.blocks.len()
        &&& forall|i: int|
            0 <= i < self.awaited.len() ==> (#[trigger] self.awaited[i]).0
                < self.b.function.values.len()
    }
}

/// What every point is written with: the runtime, the frame, and the task that
/// runs.
#[derive(Clone, Copy)]
pub struct Context {
    pub runtime: Runtime,
    pub frame: Value,
    pub me: Value,
}

/// The point at `at` taken out of `block`, which keeps what precedes it from
/// `from` on, and what is to hold the rest.
pub open spec fn point_taken(
    e: Expansion,
    context: Context,
    values: Seq<TyView>,
    block: BlockId,
    insts: Seq<InstView>,
    from: nat,
    at: nat,
) -> (Expansion, BlockId) {
    let inst = insts[at as int];
    let b = e.b.contents(block, insts.subrange(from as int, at as int), None);
    let (b, post) = b.open_block();
    let b = b.receive(post, inst.result->0);
    let b = b.switch_to(block);
    match inst.kind {
        InstKindView::Await { task } => {
            let state = e.cases.len() as u64;
            let (b, resume) = expand_await_code(
                b,
                context.runtime,
                context.frame,
                context.me,
                task,
                awaited_completion(values[task.0 as int]),
                state,
                post,
            );
            (
                Expansion {
                    b,
                    cases: e.cases.push((state, TargetView::to(resume))),
                    resumes: e.resumes.push(resume),
                    awaited: e.awaited.push(task),
                },
                post,
            )
        },
        _ => (Expansion { b: expand_point_code(b, context.me, post), ..e }, post),
    }
}

/// Every point from `from` on taken out, the last part ending with `term`.
pub open spec fn block_expanded(
    e: Expansion,
    context: Context,
    values: Seq<TyView>,
    block: BlockId,
    insts: Seq<InstView>,
    from: nat,
    term: Option<TerminatorView>,
) -> Expansion
    decreases insts.len() - from,
{
    match point_from(insts, from) {
        None => Expansion { b: e.b.contents(block, insts.skip(from as int), term), ..e },
        Some(at) => {
            if from <= at < insts.len() {
                let (next, post) = point_taken(e, context, values, block, insts, from, at);
                block_expanded(next, context, values, post, insts, at + 1, term)
            } else {
                e
            }
        },
    }
}

/// The end of a block with a return going to `finish` with what is given back.
pub open spec fn completing(term: Option<TerminatorView>, finish: BlockId) -> Option<
    TerminatorView,
> {
    match term {
        Some(TerminatorView::Return(value)) => Some(
            TerminatorView::Jump(TargetView { block: finish, args: seq![value] }),
        ),
        _ => term,
    }
}

/// The first `count` blocks with their points taken out, the last block first,
/// and with their returns going to `finish`.
pub open spec fn blocks_expanded(
    e: Expansion,
    context: Context,
    values: Seq<TyView>,
    blocks: Seq<BlockView>,
    finish: BlockId,
    count: nat,
) -> Expansion
    decreases count,
{
    if count == 0 {
        e
    } else {
        let held = blocks[count - 1];
        let next = block_expanded(
            e,
            context,
            values,
            BlockId((count - 1) as u32),
            held.insts,
            0,
            completing(held.term, finish),
        );
        blocks_expanded(next, context, values, blocks, finish, (count - 1) as nat)
    }
}

proof fn point_is_there(insts: Seq<InstView>, from: nat)
    ensures
        match point_from(insts, from) {
            Some(at) => {
                &&& from <= at < insts.len()
                &&& is_point(insts[at as int].kind)
                &&& points_from(insts, from) == points_from(insts, at + 1) + 1
            },
            None => points_from(insts, from) == 0,
        },
    decreases insts.len() - from,
{
    if from < insts.len() && !is_point(insts[from as int].kind) {
        point_is_there(insts, from + 1);
    }
}

fn is_suspension(kind: &InstKind) -> (point: bool)
    ensures
        point == is_point(kind@),
{
    match kind {
        InstKind::Await { .. } => true,
        InstKind::CancellationPoint => true,
        _ => false,
    }
}

fn find_point(insts: &Vec<Inst>, from: usize) -> (found: Option<usize>)
    requires
        from <= insts@.len(),
    ensures
        match found {
            Some(at) => point_from(views(insts@), from as nat) == Some(at as nat),
            None => point_from(views(insts@), from as nat) is None,
        },
{
    let mut i: usize = from;
    while i < insts.len()
        invariant
            from <= i <= insts.len(),
            point_from(views(insts@), from as nat) == point_from(views(insts@), i as nat),
        decreases insts.len() - i,
    {
        assert(views(insts@)[i as int] == insts@[i as int]@);
        if is_suspension(&insts[i].kind) {
            return Some(i);
        }
        i += 1;
    }
    None
}

fn insts_between(insts: &Vec<Inst>, from: usize, to: usize) -> (part: Vec<Inst>)
    requires
        from <= to <= insts@.len(),
    ensures
        views(part@) == views(insts@).subrange(from as int, to as int),
{
    let mut part: Vec<Inst> = Vec::new();
    let mut i: usize = from;
    assert(views(part@) =~= views(insts@).subrange(from as int, from as int));
    while i < to
        invariant
            from <= i <= to <= insts@.len(),
            views(part@) == views(insts@).subrange(from as int, i as int),
        decreases to - i,
    {
        let ghost before = part@;
        part.push(insts[i].clone());
        assert(views(part@) =~= views(before).push(insts@[i as int]@));
        assert(views(part@) =~= views(insts@).subrange(from as int, i + 1));
        i += 1;
    }
    part
}

fn completion_of(ty: &Ty) -> (completion: Ty)
    requires
        ty@ matches TyView::Builtin { kind: Builtin::Task, args } && args.len() > 0,
    ensures
        completion@ == awaited_completion(ty@),
{
    match ty {
        Ty::Builtin { kind, args } => {
            assert(ty@ == TyView::Builtin { kind: *kind, args: tys(args@) });
            assert(tys(args@)[0] == args@[0]@);
            result_of(args[0].clone())
        },
        _ => ty.clone(),
    }
}

proof fn parts_are_within(insts: Seq<InstView>, from: int, to: int, values: nat, slots: nat, more: nat)
    requires
        0 <= from <= to <= insts.len(),
        insts_within(insts, values, slots),
        values <= more,
    ensures
        insts_within(insts.subrange(from, to), more, slots),
{
    let part = insts.subrange(from, to);
    assert forall|i: int| 0 <= i < part.len() implies (#[trigger] part[i]).within(more, slots) by {
        assert(part[i] == insts[from + i]);
        within_grows(part[i], values, slots, more, slots);
    }
}

fn take_point(
    e: Expanding,
    context: Context,
    values: &Vec<Ty>,
    block: BlockId,
    insts: &Vec<Inst>,
    from: usize,
    at: usize,
) -> (result: (Expanding, BlockId))
    requires
        e@.sound(),
        context.frame.0 < e@.b.function.values.len(),
        context.me.0 < e@.b.function.values.len(),
        block.0 < e@.b.function.blocks.len(),
        values@.len() <= e@.b.function.values.len(),
        e@.b.function.values.len() + 21 <= id_limit(),
        e@.b.function.blocks.len() + 8 <= id_limit(),
        from <= at < insts@.len(),
        is_point(insts@[at as int]@.kind),
        insts_within(views(insts@), values@.len(), e@.b.function.slots.len()),
        point_fits(insts@[at as int]@, tys(values@)),
    ensures
        (result.0@, result.1) == point_taken(
            e@,
            context,
            tys(values@),
            block,
            views(insts@),
            from as nat,
            at as nat,
        ),
        result.0@.sound(),
        e@.b.function.values.len() <= result.0@.b.function.values.len()
            <= e@.b.function.values.len() + 21,
        e@.b.function.blocks.len() <= result.0@.b.function.blocks.len()
            <= e@.b.function.blocks.len() + 8,
        result.0@.b.function.slots.len() == e@.b.function.slots.len(),
        result.1.0 < result.0@.b.function.blocks.len(),
{
    let ghost start = e@;
    let Expanding { mut b, mut cases, mut resumes, mut awaited } = e;
    assert(start.cases == case_views(cases@));
    assert(start.b == b@);
    let inst = &insts[at];
    let part = insts_between(insts, from, at);
    proof {
        parts_are_within(
            views(insts@),
            from as int,
            at as int,
            values@.len(),
            start.b.function.slots.len(),
            start.b.function.values.len(),
        );
        assert(views(insts@)[at as int].within(values@.len(), start.b.function.slots.len()));
    }
    b.contents(block, part, None);
    let post = b.block();
    match inst.result {
        Some(result) => {
            b.receive(post, result);
        },
        None => {},
    }
    b.switch_to(block);
    match &inst.kind {
        InstKind::Await { task } => {
            let state: u64 = cases.len() as u64;
            let completion = completion_of(&values[task.0 as usize]);
            let resume = expand_await(
                &mut b,
                context.runtime,
                context.frame,
                context.me,
                *task,
                &completion,
                state,
                post,
            );
            let ghost had = cases@;
            cases.push((state, Target::to(resume)));
            resumes.push(resume);
            awaited.push(*task);
            assert(case_views(cases@) =~= case_views(had).push((state, TargetView::to(resume))));
            proof {
                cases_grow(
                    case_views(had),
                    start.b.function.values.len(),
                    start.b.function.blocks.len(),
                    b@.function.values.len(),
                    b@.function.blocks.len(),
                );
            }
        },
        _ => {
            expand_point(&mut b, context.me, post);
            proof {
                cases_grow(
                    case_views(cases@),
                    start.b.function.values.len(),
                    start.b.function.blocks.len(),
                    b@.function.values.len(),
                    b@.function.blocks.len(),
                );
            }
        },
    }
    (Expanding { b, cases, resumes, awaited }, post)
}

/// What is within some values and blocks is within more.
pub proof fn cases_grow(
    cases: Seq<(u64, TargetView)>,
    values: nat,
    blocks: nat,
    more_values: nat,
    more_blocks: nat,
)
    requires
        values <= more_values,
        blocks <= more_blocks,
        forall|i: int| 0 <= i < cases.len() ==> (#[trigger] cases[i]).1.within(values, blocks),
    ensures
        forall|i: int|
            0 <= i < cases.len() ==> (#[trigger] cases[i]).1.within(more_values, more_blocks),
{
    assert forall|i: int| 0 <= i < cases.len() implies (#[trigger] cases[i]).1.within(
        more_values,
        more_blocks,
    ) by {
        assert(cases[i].1.within(values, blocks));
    }
}

/// Takes every point out of one block.
pub fn expand_block(
    e: Expanding,
    context: Context,
    values: &Vec<Ty>,
    block: BlockId,
    insts: &Vec<Inst>,
    term: Option<Terminator>,
) -> (result: Expanding)
    requires
        e@.sound(),
        context.frame.0 < e@.b.function.values.len(),
        context.me.0 < e@.b.function.values.len(),
        block.0 < e@.b.function.blocks.len(),
        values@.len() <= e@.b.function.values.len(),
        e@.b.function.values.len() + 21 * points_from(views(insts@), 0) <= id_limit(),
        e@.b.function.blocks.len() + 8 * points_from(views(insts@), 0) <= id_limit(),
        insts_within(views(insts@), values@.len(), e@.b.function.slots.len()),
        forall|i: int|
            0 <= i < insts@.len() ==> point_fits((#[trigger] insts@[i])@, tys(values@)),
        term_within(maybe_term(term), values@.len(), e@.b.function.blocks.len()),
    ensures
        result@ == block_expanded(
            e@,
            context,
            tys(values@),
            block,
            views(insts@),
            0,
            maybe_term(term),
        ),
        result@.sound(),
        e@.b.function.values.len() <= result@.b.function.values.len()
            <= e@.b.function.values.len() + 21 * points_from(views(insts@), 0),
        e@.b.function.blocks.len() <= result@.b.function.blocks.len()
            <= e@.b.function.blocks.len() + 8 * points_from(views(insts@), 0),
        result@.b.function.slots.len() == e@.b.function.slots.len(),
{
    let ghost start = e@;
    let ghost views0 = views(insts@);
    let ghost blocks0 = e@.b.function.blocks.len();
    let ghost expected = block_expanded(
        start,
        context,
        tys(values@),
        block,
        views0,
        0,
        maybe_term(term),
    );
    let mut e = e;
    let mut block = block;
    let mut from: usize = 0;
    let mut found: Option<usize> = find_point(insts, from);
    while found.is_some()
        invariant
            from <= insts@.len(),
            views0 == views(insts@),
            match found {
                Some(at) => point_from(views0, from as nat) == Some(at as nat),
                None => point_from(views0, from as nat) is None,
            },
            e@.sound(),
            context.frame.0 < e@.b.function.values.len(),
            context.me.0 < e@.b.function.values.len(),
            block.0 < e@.b.function.blocks.len(),
            values@.len() <= start.b.function.values.len() <= e@.b.function.values.len(),
            blocks0 == start.b.function.blocks.len() <= e@.b.function.blocks.len(),
            start.b.function.values.len() + 21 * points_from(views0, 0) <= id_limit(),
            start.b.function.blocks.len() + 8 * points_from(views0, 0) <= id_limit(),
            e@.b.function.values.len() + 21 * points_from(views0, from as nat)
                <= start.b.function.values.len() + 21 * points_from(views0, 0),
            e@.b.function.blocks.len() + 8 * points_from(views0, from as nat)
                <= start.b.function.blocks.len() + 8 * points_from(views0, 0),
            e@.b.function.slots.len() == start.b.function.slots.len(),
            insts_within(views0, values@.len(), start.b.function.slots.len()),
            forall|i: int|
                0 <= i < insts@.len() ==> point_fits((#[trigger] insts@[i])@, tys(values@)),
            expected == block_expanded(
                e@,
                context,
                tys(values@),
                block,
                views0,
                from as nat,
                maybe_term(term),
            ),
        decreases insts@.len() - from,
    {
        let at: usize = found.unwrap();
        proof {
            point_is_there(views0, from as nat);
        }
        let (next, post) = take_point(e, context, values, block, insts, from, at);
        e = next;
        block = post;
        assert(at < insts.len());
        from = at + 1;
        found = find_point(insts, from);
    }
    let rest = insts_between(insts, from, insts.len());
    proof {
        assert(views0.subrange(from as int, views0.len() as int) =~= views0.skip(from as int));
        parts_are_within(
            views0,
            from as int,
            views0.len() as int,
            values@.len(),
            start.b.function.slots.len(),
            e@.b.function.values.len(),
        );
        if let Some(held) = maybe_term(term) {
            term_within_grows(
                held,
                values@.len(),
                blocks0,
                e@.b.function.values.len(),
                e@.b.function.blocks.len(),
            );
        }
    }
    let Expanding { mut b, cases, resumes, awaited } = e;
    b.contents(block, rest, term);
    Expanding { b, cases, resumes, awaited }
}

fn complete(term: &Option<Terminator>, finish: BlockId) -> (changed: Option<Terminator>)
    ensures
        maybe_term(changed) == completing(maybe_term(*term), finish),
{
    match term {
        Some(Terminator::Return(value)) => {
            let mut args: Vec<Value> = Vec::new();
            args.push(*value);
            assert(args@ =~= seq![*value]);
            Some(Terminator::Jump(Target { block: finish, args }))
        },
        Some(held) => Some(held.clone()),
        None => None,
    }
}

proof fn points_add_up(blocks: Seq<BlockView>, first: nat, last: nat)
    requires
        first <= last,
    ensures
        block_points(blocks, first) <= block_points(blocks, last),
    decreases last,
{
    if first < last {
        points_add_up(blocks, first, (last - 1) as nat);
    }
}

/// Takes every point out of every block of a function.
pub fn expand_blocks(
    e: Expanding,
    context: Context,
    values: &Vec<Ty>,
    blocks: &Vec<Block>,
    finish: BlockId,
) -> (result: Expanding)
    requires
        e@.sound(),
        context.frame.0 < e@.b.function.values.len(),
        context.me.0 < e@.b.function.values.len(),
        finish.0 < e@.b.function.blocks.len(),
        values@.len() <= e@.b.function.values.len(),
        blocks@.len() <= e@.b.function.blocks.len(),
        e@.b.function.values.len() + 21 * block_points(views(blocks@), blocks@.len())
            <= id_limit(),
        e@.b.function.blocks.len() + 8 * block_points(views(blocks@), blocks@.len())
            <= id_limit(),
        forall|i: int|
            0 <= i < blocks@.len() ==> (#[trigger] blocks@[i])@.within(
                values@.len(),
                e@.b.function.slots.len(),
                blocks@.len(),
            ),
        points_fit(views(blocks@), tys(values@)),
    ensures
        result@ == blocks_expanded(
            e@,
            context,
            tys(values@),
            views(blocks@),
            finish,
            blocks@.len(),
        ),
        result@.sound(),
        e@.b.function.values.len() <= result@.b.function.values.len()
            <= e@.b.function.values.len() + 21 * block_points(views(blocks@), blocks@.len()),
        e@.b.function.blocks.len() <= result@.b.function.blocks.len()
            <= e@.b.function.blocks.len() + 8 * block_points(views(blocks@), blocks@.len()),
        result@.b.function.slots.len() == e@.b.function.slots.len(),
{
    let ghost start = e@;
    let ghost held = views(blocks@);
    let ghost total = block_points(held, held.len());
    let ghost expected = blocks_expanded(
        start,
        context,
        tys(values@),
        held,
        finish,
        held.len(),
    );
    let mut e = e;
    let mut i: usize = blocks.len();
    while i > 0
        invariant
            i <= blocks@.len(),
            held == views(blocks@),
            total == block_points(held, held.len()),
            e@.sound(),
            context.frame.0 < e@.b.function.values.len(),
            context.me.0 < e@.b.function.values.len(),
            finish.0 < e@.b.function.blocks.len(),
            values@.len() <= start.b.function.values.len() <= e@.b.function.values.len(),
            blocks@.len() <= start.b.function.blocks.len() <= e@.b.function.blocks.len(),
            start.b.function.values.len() + 21 * total <= id_limit(),
            start.b.function.blocks.len() + 8 * total <= id_limit(),
            e@.b.function.values.len() + 21 * block_points(held, i as nat)
                <= start.b.function.values.len() + 21 * total,
            e@.b.function.blocks.len() + 8 * block_points(held, i as nat)
                <= start.b.function.blocks.len() + 8 * total,
            e@.b.function.slots.len() == start.b.function.slots.len(),
            forall|k: int|
                0 <= k < blocks@.len() ==> (#[trigger] blocks@[k])@.within(
                    values@.len(),
                    start.b.function.slots.len(),
                    blocks@.len(),
                ),
            points_fit(held, tys(values@)),
            expected == blocks_expanded(
                e@,
                context,
                tys(values@),
                held,
                finish,
                i as nat,
            ),
        decreases i,
    {
        i -= 1;
        let block = &blocks[i];
        let ghost insts = held[i as int].insts;
        assert(block@ == held[i as int]);
        assert(block@.within(values@.len(), start.b.function.slots.len(), blocks@.len()));
        assert(insts == views(block.insts@));
        assert forall|k: int| 0 <= k < block.insts@.len() implies point_fits(
            (#[trigger] block.insts@[k])@,
            tys(values@),
        ) by {
            assert(point_fits(held[i as int].insts[k], tys(values@)));
        }
        let term = complete(&block.term, finish);
        proof {
            if let Some(ended) = held[i as int].term {
                term_within_grows(
                    ended,
                    values@.len(),
                    blocks@.len(),
                    values@.len(),
                    e@.b.function.blocks.len(),
                );
            }
            assert(term_within(
                maybe_term(term),
                values@.len(),
                e@.b.function.blocks.len(),
            ));
        }
        e = expand_block(e, context, values, BlockId(i as u32), &block.insts, term);
    }
    e
}

} // verus!
