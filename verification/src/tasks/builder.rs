//! Writing a function's blocks by hand.

use vstd::prelude::*;

use crate::inst::{
    maybe_term, values_within, within_grows, BinaryOp, Const, ConstView, Inst, InstKind,
    InstKindView, InstView, Target, TargetView, Terminator, TerminatorView, Trap, UnaryOp, Value,
};
use crate::program::{
    block_within_grows, id_limit, views, BlockId, BlockView, FuncId, Function, FunctionView,
};
use crate::span::Span;
use crate::ty::{tys, Ty, TyView};

verus! {

/// A function being written, and the block that what is written next goes
/// into.
pub struct Builder {
    function: Function,
    current: BlockId,
    span: Span,
}

/// A [`Builder`] with its function as a mathematical value.
pub struct BuilderView {
    pub function: FunctionView,
    pub current: BlockId,
    pub span: Span,
}

impl View for Builder {
    type V = BuilderView;

    closed spec fn view(&self) -> BuilderView {
        BuilderView { function: self.function@, current: self.current, span: self.span }
    }
}

impl BuilderView {
    /// Whether one more value can be told apart, and there is a block to write
    /// into.
    pub open spec fn ready(self) -> bool {
        self.function.values.len() < id_limit() && self.current.0 < self.function.blocks.len()
    }

    /// What the next value will be called.
    pub open spec fn next(self) -> Value {
        self.function.next_value()
    }

    /// One more instruction, and the value of type `ty` it produces.
    pub open spec fn emit(self, kind: InstKindView, ty: TyView) -> BuilderView {
        BuilderView {
            function: self.function.add_value(ty).push_inst(
                self.current,
                InstView { result: Some(self.next()), kind, span: self.span },
            ),
            ..self
        }
    }

    /// One more instruction, which produces nothing.
    #[verifier::opaque]
    pub open spec fn emit_void(self, kind: InstKindView) -> BuilderView {
        BuilderView {
            function: self.function.push_inst(
                self.current,
                InstView { result: None, kind, span: self.span },
            ),
            ..self
        }
    }

    /// The block ended.
    #[verifier::opaque]
    pub open spec fn terminate(self, term: TerminatorView) -> BuilderView {
        BuilderView { function: self.function.end_block(self.current, term), ..self }
    }

    /// One more block.
    pub open spec fn block(self) -> BuilderView {
        BuilderView { function: self.function.add_block(), ..self }
    }

    /// One more parameter of a block.
    pub open spec fn param(self, block: BlockId, ty: TyView) -> BuilderView {
        BuilderView { function: self.function.add_block_param(block, ty), ..self }
    }

    /// The same function, writing into another block.
    #[verifier::opaque]
    pub open spec fn switch_to(self, block: BlockId) -> BuilderView {
        BuilderView { current: block, ..self }
    }
}

impl BuilderView {
    /// One more instruction, and what it produces.
    #[verifier::opaque]
    pub open spec fn put(self, kind: InstKindView, ty: TyView) -> (BuilderView, Value) {
        (self.emit(kind, ty), self.next())
    }

    /// One more block, and what it is called.
    #[verifier::opaque]
    pub open spec fn open_block(self) -> (BuilderView, BlockId) {
        (self.block(), self.function.next_block())
    }

    /// One more parameter of a block, and what it is called.
    #[verifier::opaque]
    pub open spec fn open_param(self, block: BlockId, ty: TyView) -> (BuilderView, Value) {
        (self.param(block, ty), self.next())
    }

    /// Ends the block by going to one that takes nothing.
    pub open spec fn jump(self, block: BlockId) -> BuilderView {
        self.terminate(TerminatorView::Jump(TargetView::to(block)))
    }

    /// Ends the block by going to another with `args`.
    pub open spec fn jump_with(self, block: BlockId, args: Seq<Value>) -> BuilderView {
        self.terminate(TerminatorView::Jump(TargetView { block, args }))
    }

    /// Ends the block by going to one of two.
    pub open spec fn branch(
        self,
        condition: Value,
        then: BlockId,
        otherwise: BlockId,
    ) -> BuilderView {
        self.terminate(
            TerminatorView::Branch {
                condition,
                then: TargetView::to(then),
                otherwise: TargetView::to(otherwise),
            },
        )
    }

    /// Ends the block by leaving the function.
    pub open spec fn ret(self, value: Value) -> BuilderView {
        self.terminate(TerminatorView::Return(value))
    }

    /// An integer.
    pub open spec fn integer(self, value: u64) -> (BuilderView, Value) {
        self.put(InstKindView::Const(ConstView::Int(value)), TyView::integer())
    }

    /// A boolean.
    pub open spec fn boolean(self, value: bool) -> (BuilderView, Value) {
        self.put(InstKindView::Const(ConstView::Bool(value)), TyView::Bool)
    }

    /// The one value of the unit type.
    pub open spec fn unit(self) -> (BuilderView, Value) {
        self.put(InstKindView::Const(ConstView::Unit), TyView::Unit)
    }

    /// Nothing, as a value of `ty`.
    pub open spec fn nil(self, ty: TyView) -> (BuilderView, Value) {
        self.put(InstKindView::Const(ConstView::Nil), ty)
    }

    /// A field of an object.
    pub open spec fn get(self, object: Value, field: u32, ty: TyView) -> (BuilderView, Value) {
        self.put(InstKindView::GetField { object, field }, ty)
    }

    /// Writes a field of an object.
    pub open spec fn set(self, object: Value, field: u32, value: Value) -> BuilderView {
        self.emit_void(InstKindView::SetField { object, field, value })
    }

    /// Whether an optional holds something.
    pub open spec fn is_some(self, value: Value) -> (BuilderView, Value) {
        self.put(InstKindView::IsSome { value }, TyView::Bool)
    }

    /// What an optional holds.
    pub open spec fn unwrap(self, value: Value, ty: TyView) -> (BuilderView, Value) {
        self.put(InstKindView::Unwrap { value }, ty)
    }

    /// An optional that holds `value`.
    pub open spec fn some(self, value: Value) -> (BuilderView, Value) {
        self.put(
            InstKindView::MakeSome { value },
            TyView::Optional(Box::new(self.function.type_of(value))),
        )
    }

    /// A call.
    pub open spec fn call(
        self,
        callee: FuncId,
        args: Seq<Value>,
        ty: TyView,
    ) -> (BuilderView, Value) {
        self.put(InstKindView::Call { callee, type_args: Seq::empty(), args }, ty)
    }

    /// Whether two values are equal.
    pub open spec fn equal(self, left: Value, right: Value) -> (BuilderView, Value) {
        self.put(InstKindView::Binary { op: BinaryOp::Equal, left, right }, TyView::Bool)
    }

    /// The sum of two integers.
    pub open spec fn plus(self, left: Value, right: Value) -> (BuilderView, Value) {
        self.put(InstKindView::Binary { op: BinaryOp::Add, left, right }, TyView::integer())
    }

    /// The opposite of a boolean.
    pub open spec fn not(self, operand: Value) -> (BuilderView, Value) {
        self.put(InstKindView::Unary { op: UnaryOp::Not, operand }, TyView::Bool)
    }

    /// Whether two booleans both hold.
    pub open spec fn and(self, left: Value, right: Value) -> (BuilderView, Value) {
        self.put(InstKindView::Binary { op: BinaryOp::BitAnd, left, right }, TyView::Bool)
    }

    /// How many a collection holds.
    pub open spec fn length(self, receiver: Value) -> (BuilderView, Value) {
        self.put(InstKindView::Length { receiver }, TyView::integer())
    }

    /// An element of a sequence.
    pub open spec fn index(
        self,
        receiver: Value,
        index: Value,
        ty: TyView,
    ) -> (BuilderView, Value) {
        self.put(InstKindView::GetIndex { receiver, index }, ty)
    }

    /// A value that carries what it is at runtime.
    pub open spec fn boxed(self, value: Value) -> (BuilderView, Value) {
        self.put(InstKindView::MakeDyn { interface: None, value }, TyView::Dynamic)
    }

    /// The value inside such a one.
    pub open spec fn unboxed(self, value: Value, ty: TyView) -> (BuilderView, Value) {
        self.put(InstKindView::DynValue { value }, ty)
    }

    /// Stops the program with a message.
    pub open spec fn panic(self, message: Seq<char>) -> BuilderView {
        let (b, text) = self.put(InstKindView::Const(ConstView::Str(message)), TyView::Str);
        b.emit_void(InstKindView::Panic { message: text }).terminate(
            TerminatorView::Trap(Trap::Unreachable),
        )
    }

    /// `block` holding other instructions and another end.
    #[verifier::opaque]
    pub open spec fn contents(
        self,
        block: BlockId,
        insts: Seq<InstView>,
        term: Option<TerminatorView>,
    ) -> BuilderView {
        BuilderView {
            function: self.function.with_block(
                block,
                BlockView { params: self.function.block(block).params, insts, term },
            ),
            ..self
        }
    }

    /// `block` receiving one more value that is already there.
    #[verifier::opaque]
    pub open spec fn receive(self, block: BlockId, value: Value) -> BuilderView {
        let held = self.function.block(block);
        BuilderView {
            function: self.function.with_block(
                block,
                BlockView { params: held.params.push(value), ..held },
            ),
            ..self
        }
    }

    /// Whether the function is well formed, and there is a block to write
    /// into.
    #[verifier::opaque]
    pub open spec fn sound(self) -> bool {
        self.function.well_formed() && self.current.0 < self.function.blocks.len()
    }

    /// Whether `block` has been ended.
    #[verifier::opaque]
    pub open spec fn ended(self, block: BlockId) -> bool {
        block.0 < self.function.blocks.len() && self.function.block(block).term is Some
    }

    /// Whether every block that was ended before still is.
    pub open spec fn keeps_ended(self, before: BuilderView) -> bool {
        forall|block: BlockId| before.ended(block) ==> #[trigger] self.ended(block)
    }
}

/// Whether instructions name only the first `values` and `slots`.
pub open spec fn insts_within(insts: Seq<InstView>, values: nat, slots: nat) -> bool {
    forall|i: int| 0 <= i < insts.len() ==> (#[trigger] insts[i]).within(values, slots)
}

/// Whether the end of a block, where there is one, names only the first
/// `values` and `blocks`.
pub open spec fn term_within(term: Option<TerminatorView>, values: nat, blocks: nat) -> bool {
    term matches Some(held) ==> held.within(values, blocks)
}

/// A function each of whose blocks has been ended is finished.
pub proof fn all_ended(b: BuilderView)
    requires
        b.function.blocks.len() <= id_limit(),
        forall|i: int|
            0 <= i < b.function.blocks.len() ==> b.ended(#[trigger] block_id(i)),
    ensures
        b.function.finished(),
{
    reveal(BuilderView::ended);
    assert forall|i: int| 0 <= i < b.function.blocks.len() implies (
    #[trigger] b.function.blocks[i]).term is Some by {
        assert(b.ended(block_id(i)));
    }
}

/// The block at `index`.
pub open spec fn block_id(index: int) -> BlockId {
    BlockId(index as u32)
}

/// An instruction that names what is there leaves the function well formed.
pub proof fn emit_is_sound(b: BuilderView, kind: InstKindView, ty: TyView)
    requires
        b.ready(),
        b.sound(),
        kind.within(b.function.values.len(), b.function.slots.len()),
    ensures
        b.emit(kind, ty).sound(),
{
    reveal(BuilderView::sound);
    let after = b.emit(kind, ty).function;
    let values = after.values.len();
    let slots = after.slots.len();
    let blocks = after.blocks.len();
    assert forall|i: int| 0 <= i < blocks implies (#[trigger] after.blocks[i]).within(
        values,
        slots,
        blocks,
    ) by {
        let held = b.function.blocks[i];
        assert(held.within(b.function.values.len(), slots, blocks));
        block_within_grows(held, b.function.values.len(), slots, blocks, values, slots, blocks);
        if i == b.current.0 {
            let now = after.blocks[i];
            assert forall|k: int| 0 <= k < now.insts.len() implies (
            #[trigger] now.insts[k]).within(values, slots) by {
                if k < held.insts.len() {
                    assert(now.insts[k] == held.insts[k]);
                } else {
                    let inst = InstView {
                        result: None,
                        kind,
                        span: b.span,
                    };
                    within_grows(inst, b.function.values.len(), slots, values, slots);
                }
            }
        }
    }
}

/// An instruction that produces nothing and names what is there leaves the
/// function well formed.
pub proof fn emit_void_is_sound(b: BuilderView, kind: InstKindView)
    requires
        b.sound(),
        kind.within(b.function.values.len(), b.function.slots.len()),
    ensures
        b.emit_void(kind).sound(),
{
    reveal(BuilderView::sound);
    reveal(BuilderView::emit_void);
    let after = b.emit_void(kind).function;
    let values = after.values.len();
    let slots = after.slots.len();
    let blocks = after.blocks.len();
    assert forall|i: int| 0 <= i < blocks implies (#[trigger] after.blocks[i]).within(
        values,
        slots,
        blocks,
    ) by {
        let held = b.function.blocks[i];
        assert(held.within(values, slots, blocks));
        if i == b.current.0 {
            let now = after.blocks[i];
            assert forall|k: int| 0 <= k < now.insts.len() implies (
            #[trigger] now.insts[k]).within(values, slots) by {
                if k < held.insts.len() {
                    assert(now.insts[k] == held.insts[k]);
                }
            }
        }
    }
}

/// Ending a block with jumps to what is there leaves the function well formed.
pub proof fn terminate_is_sound(b: BuilderView, term: TerminatorView)
    requires
        b.sound(),
        term.within(b.function.values.len(), b.function.blocks.len()),
    ensures
        b.terminate(term).sound(),
{
    reveal(BuilderView::sound);
    reveal(BuilderView::terminate);
    let after = b.terminate(term).function;
    let blocks = after.blocks.len();
    assert forall|i: int| 0 <= i < blocks implies (#[trigger] after.blocks[i]).within(
        after.values.len(),
        after.slots.len(),
        blocks,
    ) by {
        assert(b.function.blocks[i].within(after.values.len(), after.slots.len(), blocks));
    }
}

/// One more block leaves the function well formed.
pub proof fn block_is_sound(b: BuilderView)
    requires
        b.sound(),
        b.function.blocks.len() < id_limit(),
    ensures
        b.block().sound(),
{
    reveal(BuilderView::sound);
    let after = b.block().function;
    let values = after.values.len();
    let slots = after.slots.len();
    let blocks = after.blocks.len();
    assert forall|i: int| 0 <= i < blocks implies (#[trigger] after.blocks[i]).within(
        values,
        slots,
        blocks,
    ) by {
        if i < b.function.blocks.len() {
            let held = b.function.blocks[i];
            assert(held.within(values, slots, b.function.blocks.len()));
            block_within_grows(
                held,
                values,
                slots,
                b.function.blocks.len(),
                values,
                slots,
                blocks,
            );
        }
    }
}

/// One more parameter of a block leaves the function well formed.
pub proof fn param_is_sound(b: BuilderView, block: BlockId, ty: TyView)
    requires
        b.sound(),
        block.0 < b.function.blocks.len(),
        b.function.values.len() < id_limit(),
    ensures
        b.param(block, ty).sound(),
{
    reveal(BuilderView::sound);
    let after = b.param(block, ty).function;
    let values = after.values.len();
    let slots = after.slots.len();
    let blocks = after.blocks.len();
    assert forall|i: int| 0 <= i < blocks implies (#[trigger] after.blocks[i]).within(
        values,
        slots,
        blocks,
    ) by {
        let held = b.function.blocks[i];
        assert(held.within(b.function.values.len(), slots, blocks));
        block_within_grows(held, b.function.values.len(), slots, blocks, values, slots, blocks);
        if i == block.0 {
            let now = after.blocks[i];
            assert forall|k: int| 0 <= k < now.params.len() implies (#[trigger] now.params[k]).0
                < values by {
                if k < held.params.len() {
                    assert(held.params[k].0 < b.function.values.len());
                }
            }
        }
    }
}

impl Builder {
    /// Starts writing into `current`.
    pub fn new(function: Function, current: BlockId, span: Span) -> (builder: Builder)
        ensures
            builder@ == (BuilderView { function: function@, current, span }),
            function@.well_formed() && current.0 < function@.blocks.len() ==> builder@.sound(),
    {
        proof {
            reveal(BuilderView::sound);
        }
        Builder { function, current, span }
    }

    /// What has been written.
    pub fn finish(self) -> (function: Function)
        ensures
            function@ == self@.function,
            self@.sound() ==> function@.well_formed(),
    {
        proof {
            reveal(BuilderView::sound);
        }
        self.function
    }

    /// The type of a value of the function.
    pub fn type_of(&self, value: Value) -> (ty: &Ty)
        requires
            value.0 < self@.function.values.len(),
        ensures
            ty@ == self@.function.type_of(value),
    {
        self.function.type_of(value)
    }

    /// Writes an instruction, and gives back the value it produces.
    pub fn emit(&mut self, kind: InstKind, ty: Ty) -> (result: Value)
        requires
            old(self)@.ready(),
        ensures
            (final(self)@, result) == old(self)@.put(kind@, ty@),
            final(self)@.keeps_ended(old(self)@),
            old(self)@.sound() && kind@.within(
                old(self)@.function.values.len(),
                old(self)@.function.slots.len(),
            ) ==> final(self)@.sound(),
            final(self)@.function.values.len() == old(self)@.function.values.len() + 1,
            final(self)@.function.blocks.len() == old(self)@.function.blocks.len(),
            final(self)@.function.slots.len() == old(self)@.function.slots.len(),
            final(self)@.current == old(self)@.current,
            result.0 == old(self)@.function.values.len(),
    {
        proof {
            reveal(BuilderView::put);
            reveal(BuilderView::sound);
            reveal(BuilderView::ended);
        }
        proof {
            if self@.sound() && kind@.within(
                self@.function.values.len(),
                self@.function.slots.len(),
            ) {
                emit_is_sound(self@, kind@, ty@);
            }
        }
        let result = self.function.add_value(ty);
        self.function.push_inst(
            self.current,
            Inst { result: Some(result), kind, span: self.span },
        );
        result
    }

    /// Writes an instruction that produces nothing.
    pub fn emit_void(&mut self, kind: InstKind)
        requires
            old(self)@.current.0 < old(self)@.function.blocks.len(),
        ensures
            final(self)@ == old(self)@.emit_void(kind@),
            final(self)@.keeps_ended(old(self)@),
            old(self)@.sound() && kind@.within(
                old(self)@.function.values.len(),
                old(self)@.function.slots.len(),
            ) ==> final(self)@.sound(),
            final(self)@.function.values.len() == old(self)@.function.values.len(),
            final(self)@.function.blocks.len() == old(self)@.function.blocks.len(),
            final(self)@.function.slots.len() == old(self)@.function.slots.len(),
            final(self)@.current == old(self)@.current,
    {
        proof {
            reveal(BuilderView::emit_void);
            reveal(BuilderView::sound);
            reveal(BuilderView::ended);
        }
        proof {
            if self@.sound() && kind@.within(
                self@.function.values.len(),
                self@.function.slots.len(),
            ) {
                emit_void_is_sound(self@, kind@);
            }
        }
        self.function.push_inst(self.current, Inst { result: None, kind, span: self.span });
    }

    /// Ends the block.
    pub fn terminate(&mut self, term: Terminator)
        requires
            old(self)@.current.0 < old(self)@.function.blocks.len(),
        ensures
            final(self)@ == old(self)@.terminate(term@),
            final(self)@.keeps_ended(old(self)@),
            final(self)@.ended(old(self)@.current),
            old(self)@.sound() && term@.within(
                old(self)@.function.values.len(),
                old(self)@.function.blocks.len(),
            ) ==> final(self)@.sound(),
            final(self)@.function.values.len() == old(self)@.function.values.len(),
            final(self)@.function.blocks.len() == old(self)@.function.blocks.len(),
            final(self)@.function.slots.len() == old(self)@.function.slots.len(),
            final(self)@.current == old(self)@.current,
    {
        proof {
            reveal(BuilderView::terminate);
            reveal(BuilderView::sound);
            reveal(BuilderView::ended);
        }
        proof {
            if self@.sound() && term@.within(
                self@.function.values.len(),
                self@.function.blocks.len(),
            ) {
                terminate_is_sound(self@, term@);
            }
        }
        self.function.end_block(self.current, term);
    }

    /// Adds a block.
    pub fn block(&mut self) -> (block: BlockId)
        requires
            old(self)@.function.blocks.len() < id_limit(),
        ensures
            (final(self)@, block) == old(self)@.open_block(),
            final(self)@.keeps_ended(old(self)@),
            old(self)@.sound() ==> final(self)@.sound(),
            final(self)@.function.values.len() == old(self)@.function.values.len(),
            final(self)@.function.blocks.len() == old(self)@.function.blocks.len() + 1,
            final(self)@.function.slots.len() == old(self)@.function.slots.len(),
            final(self)@.current == old(self)@.current,
            block.0 == old(self)@.function.blocks.len(),
    {
        proof {
            reveal(BuilderView::open_block);
            reveal(BuilderView::sound);
            reveal(BuilderView::ended);
        }
        proof {
            if self@.sound() {
                block_is_sound(self@);
            }
        }
        self.function.add_block()
    }

    /// Adds a parameter to a block.
    pub fn param(&mut self, block: BlockId, ty: Ty) -> (value: Value)
        requires
            old(self)@.function.values.len() < id_limit(),
            block.0 < old(self)@.function.blocks.len(),
        ensures
            (final(self)@, value) == old(self)@.open_param(block, ty@),
            final(self)@.keeps_ended(old(self)@),
            old(self)@.sound() ==> final(self)@.sound(),
            final(self)@.function.values.len() == old(self)@.function.values.len() + 1,
            final(self)@.function.blocks.len() == old(self)@.function.blocks.len(),
            final(self)@.function.slots.len() == old(self)@.function.slots.len(),
            final(self)@.current == old(self)@.current,
            value.0 == old(self)@.function.values.len(),
    {
        proof {
            reveal(BuilderView::open_param);
            reveal(BuilderView::sound);
            reveal(BuilderView::ended);
        }
        proof {
            if self@.sound() {
                param_is_sound(self@, block, ty@);
            }
        }
        self.function.add_block_param(block, ty)
    }

    /// Gives `block` other instructions and another end.
    pub fn contents(&mut self, block: BlockId, insts: Vec<Inst>, term: Option<Terminator>)
        requires
            block.0 < old(self)@.function.blocks.len(),
        ensures
            final(self)@ == old(self)@.contents(block, views(insts@), maybe_term(term)),
            old(self)@.sound() && insts_within(
                views(insts@),
                old(self)@.function.values.len(),
                old(self)@.function.slots.len(),
            ) && term_within(
                maybe_term(term),
                old(self)@.function.values.len(),
                old(self)@.function.blocks.len(),
            ) ==> final(self)@.sound(),
            final(self)@.function.values.len() == old(self)@.function.values.len(),
            final(self)@.function.blocks.len() == old(self)@.function.blocks.len(),
            final(self)@.function.slots.len() == old(self)@.function.slots.len(),
            final(self)@.current == old(self)@.current,
    {
        proof {
            reveal(BuilderView::contents);
            reveal(BuilderView::sound);
        }
        let ghost before = self@;
        let held = self.function.block_mut(block);
        held.insts = insts;
        held.term = term;
        assert(self@.function =~= before.contents(block, views(insts@), maybe_term(term)).function);
    }

    /// Makes `block` receive a value that is already there.
    pub fn receive(&mut self, block: BlockId, value: Value)
        requires
            block.0 < old(self)@.function.blocks.len(),
        ensures
            final(self)@ == old(self)@.receive(block, value),
            old(self)@.sound() && value.0 < old(self)@.function.values.len()
                ==> final(self)@.sound(),
            final(self)@.function.values.len() == old(self)@.function.values.len(),
            final(self)@.function.blocks.len() == old(self)@.function.blocks.len(),
            final(self)@.function.slots.len() == old(self)@.function.slots.len(),
            final(self)@.current == old(self)@.current,
    {
        proof {
            reveal(BuilderView::receive);
            reveal(BuilderView::sound);
        }
        let ghost before = self@;
        let held = self.function.block_mut(block);
        held.params.push(value);
        assert(self@.function =~= before.receive(block, value).function);
    }

    /// Goes on in another block.
    pub fn switch_to(&mut self, block: BlockId)
        ensures
            final(self)@ == old(self)@.switch_to(block),
            final(self)@.keeps_ended(old(self)@),
            old(self)@.sound() && block.0 < old(self)@.function.blocks.len()
                ==> final(self)@.sound(),
            final(self)@.function.values.len() == old(self)@.function.values.len(),
            final(self)@.function.blocks.len() == old(self)@.function.blocks.len(),
            final(self)@.function.slots.len() == old(self)@.function.slots.len(),
            final(self)@.current == block,
    {
        proof {
            reveal(BuilderView::switch_to);
            reveal(BuilderView::sound);
            reveal(BuilderView::ended);
        }
        self.current = block;
    }

    /// Ends the block by going to one that takes nothing.
    pub fn jump(&mut self, block: BlockId)
        requires
            old(self)@.current.0 < old(self)@.function.blocks.len(),
        ensures
            final(self)@ == old(self)@.jump(block),
            final(self)@.keeps_ended(old(self)@),
            final(self)@.ended(old(self)@.current),
            old(self)@.sound() && block.0 < old(self)@.function.blocks.len() ==> final(self)@.sound(),
            final(self)@.function.values.len() == old(self)@.function.values.len(),
            final(self)@.function.blocks.len() == old(self)@.function.blocks.len(),
            final(self)@.function.slots.len() == old(self)@.function.slots.len(),
            final(self)@.current == old(self)@.current,
    {
        self.terminate(Terminator::Jump(Target::to(block)));
    }

    /// Ends the block by going to another with `args`.
    pub fn jump_with(&mut self, block: BlockId, args: Vec<Value>)
        requires
            old(self)@.current.0 < old(self)@.function.blocks.len(),
        ensures
            final(self)@ == old(self)@.jump_with(block, args@),
            final(self)@.keeps_ended(old(self)@),
            final(self)@.ended(old(self)@.current),
            old(self)@.sound() && block.0 < old(self)@.function.blocks.len() && values_within(args@, old(self)@.function.values.len()) ==> final(self)@.sound(),
            final(self)@.function.values.len() == old(self)@.function.values.len(),
            final(self)@.function.blocks.len() == old(self)@.function.blocks.len(),
            final(self)@.function.slots.len() == old(self)@.function.slots.len(),
            final(self)@.current == old(self)@.current,
    {
        self.terminate(Terminator::Jump(Target::new(block, args)));
    }

    /// Ends the block by going to one of two.
    pub fn branch(&mut self, condition: Value, then: BlockId, otherwise: BlockId)
        requires
            old(self)@.current.0 < old(self)@.function.blocks.len(),
        ensures
            final(self)@ == old(self)@.branch(condition, then, otherwise),
            final(self)@.keeps_ended(old(self)@),
            final(self)@.ended(old(self)@.current),
            old(self)@.sound() && condition.0 < old(self)@.function.values.len() && then.0 < old(self)@.function.blocks.len() && otherwise.0 < old(self)@.function.blocks.len() ==> final(self)@.sound(),
            final(self)@.function.values.len() == old(self)@.function.values.len(),
            final(self)@.function.blocks.len() == old(self)@.function.blocks.len(),
            final(self)@.function.slots.len() == old(self)@.function.slots.len(),
            final(self)@.current == old(self)@.current,
    {
        self.terminate(
            Terminator::Branch { condition, then: Target::to(then), otherwise: Target::to(otherwise) },
        );
    }

    /// Ends the block by leaving the function.
    pub fn ret(&mut self, value: Value)
        requires
            old(self)@.current.0 < old(self)@.function.blocks.len(),
        ensures
            final(self)@ == old(self)@.ret(value),
            final(self)@.keeps_ended(old(self)@),
            final(self)@.ended(old(self)@.current),
            old(self)@.sound() && value.0 < old(self)@.function.values.len() ==> final(self)@.sound(),
            final(self)@.function.values.len() == old(self)@.function.values.len(),
            final(self)@.function.blocks.len() == old(self)@.function.blocks.len(),
            final(self)@.function.slots.len() == old(self)@.function.slots.len(),
            final(self)@.current == old(self)@.current,
    {
        self.terminate(Terminator::Return(value));
    }

    /// An integer.
    pub fn integer(&mut self, value: u64) -> (result: Value)
        requires
            old(self)@.ready(),
        ensures
            (final(self)@, result) == old(self)@.integer(value),
            final(self)@.keeps_ended(old(self)@),
            old(self)@.sound() ==> final(self)@.sound(),
            final(self)@.function.values.len() == old(self)@.function.values.len() + 1,
            final(self)@.function.blocks.len() == old(self)@.function.blocks.len(),
            final(self)@.function.slots.len() == old(self)@.function.slots.len(),
            final(self)@.current == old(self)@.current,
            result.0 == old(self)@.function.values.len(),
    {
        self.emit(InstKind::Const(Const::Int(value)), Ty::integer())
    }

    /// A boolean.
    pub fn boolean(&mut self, value: bool) -> (result: Value)
        requires
            old(self)@.ready(),
        ensures
            (final(self)@, result) == old(self)@.boolean(value),
            final(self)@.keeps_ended(old(self)@),
            old(self)@.sound() ==> final(self)@.sound(),
            final(self)@.function.values.len() == old(self)@.function.values.len() + 1,
            final(self)@.function.blocks.len() == old(self)@.function.blocks.len(),
            final(self)@.function.slots.len() == old(self)@.function.slots.len(),
            final(self)@.current == old(self)@.current,
            result.0 == old(self)@.function.values.len(),
    {
        self.emit(InstKind::Const(Const::Bool(value)), Ty::Bool)
    }

    /// The one value of the unit type.
    pub fn unit(&mut self) -> (result: Value)
        requires
            old(self)@.ready(),
        ensures
            (final(self)@, result) == old(self)@.unit(),
            final(self)@.keeps_ended(old(self)@),
            old(self)@.sound() ==> final(self)@.sound(),
            final(self)@.function.values.len() == old(self)@.function.values.len() + 1,
            final(self)@.function.blocks.len() == old(self)@.function.blocks.len(),
            final(self)@.function.slots.len() == old(self)@.function.slots.len(),
            final(self)@.current == old(self)@.current,
            result.0 == old(self)@.function.values.len(),
    {
        self.emit(InstKind::Const(Const::Unit), Ty::Unit)
    }

    /// Nothing, as a value of `ty`.
    pub fn nil(&mut self, ty: Ty) -> (result: Value)
        requires
            old(self)@.ready(),
        ensures
            (final(self)@, result) == old(self)@.nil(ty@),
            final(self)@.keeps_ended(old(self)@),
            old(self)@.sound() ==> final(self)@.sound(),
            final(self)@.function.values.len() == old(self)@.function.values.len() + 1,
            final(self)@.function.blocks.len() == old(self)@.function.blocks.len(),
            final(self)@.function.slots.len() == old(self)@.function.slots.len(),
            final(self)@.current == old(self)@.current,
            result.0 == old(self)@.function.values.len(),
    {
        self.emit(InstKind::Const(Const::Nil), ty)
    }

    /// A field of an object.
    pub fn get(&mut self, object: Value, field: u32, ty: Ty) -> (result: Value)
        requires
            old(self)@.ready(),
        ensures
            (final(self)@, result) == old(self)@.get(object, field, ty@),
            final(self)@.keeps_ended(old(self)@),
            old(self)@.sound() && object.0 < old(self)@.function.values.len() ==> final(self)@.sound(),
            final(self)@.function.values.len() == old(self)@.function.values.len() + 1,
            final(self)@.function.blocks.len() == old(self)@.function.blocks.len(),
            final(self)@.function.slots.len() == old(self)@.function.slots.len(),
            final(self)@.current == old(self)@.current,
            result.0 == old(self)@.function.values.len(),
    {
        self.emit(InstKind::GetField { object, field }, ty)
    }

    /// Writes a field of an object.
    pub fn set(&mut self, object: Value, field: u32, value: Value)
        requires
            old(self)@.current.0 < old(self)@.function.blocks.len(),
        ensures
            final(self)@ == old(self)@.set(object, field, value),
            final(self)@.keeps_ended(old(self)@),
            old(self)@.sound() && object.0 < old(self)@.function.values.len() && value.0 < old(self)@.function.values.len() ==> final(self)@.sound(),
            final(self)@.function.values.len() == old(self)@.function.values.len(),
            final(self)@.function.blocks.len() == old(self)@.function.blocks.len(),
            final(self)@.function.slots.len() == old(self)@.function.slots.len(),
            final(self)@.current == old(self)@.current,
    {
        self.emit_void(InstKind::SetField { object, field, value });
    }

    /// Whether an optional holds something.
    pub fn is_some(&mut self, value: Value) -> (result: Value)
        requires
            old(self)@.ready(),
        ensures
            (final(self)@, result) == old(self)@.is_some(value),
            final(self)@.keeps_ended(old(self)@),
            old(self)@.sound() && value.0 < old(self)@.function.values.len() ==> final(self)@.sound(),
            final(self)@.function.values.len() == old(self)@.function.values.len() + 1,
            final(self)@.function.blocks.len() == old(self)@.function.blocks.len(),
            final(self)@.function.slots.len() == old(self)@.function.slots.len(),
            final(self)@.current == old(self)@.current,
            result.0 == old(self)@.function.values.len(),
    {
        self.emit(InstKind::IsSome { value }, Ty::Bool)
    }

    /// What an optional holds.
    pub fn unwrap(&mut self, value: Value, ty: Ty) -> (result: Value)
        requires
            old(self)@.ready(),
        ensures
            (final(self)@, result) == old(self)@.unwrap(value, ty@),
            final(self)@.keeps_ended(old(self)@),
            old(self)@.sound() && value.0 < old(self)@.function.values.len() ==> final(self)@.sound(),
            final(self)@.function.values.len() == old(self)@.function.values.len() + 1,
            final(self)@.function.blocks.len() == old(self)@.function.blocks.len(),
            final(self)@.function.slots.len() == old(self)@.function.slots.len(),
            final(self)@.current == old(self)@.current,
            result.0 == old(self)@.function.values.len(),
    {
        self.emit(InstKind::Unwrap { value }, ty)
    }

    /// An optional that holds `value`.
    pub fn some(&mut self, value: Value) -> (result: Value)
        requires
            old(self)@.ready(),
            value.0 < old(self)@.function.values.len(),
        ensures
            (final(self)@, result) == old(self)@.some(value),
            final(self)@.keeps_ended(old(self)@),
            old(self)@.sound() && value.0 < old(self)@.function.values.len() ==> final(self)@.sound(),
            final(self)@.function.values.len() == old(self)@.function.values.len() + 1,
            final(self)@.function.blocks.len() == old(self)@.function.blocks.len(),
            final(self)@.function.slots.len() == old(self)@.function.slots.len(),
            final(self)@.current == old(self)@.current,
            result.0 == old(self)@.function.values.len(),
    {
        let ty = Ty::Optional(Box::new(self.function.type_of(value).clone()));
        self.emit(InstKind::MakeSome { value }, ty)
    }

    /// A call.
    pub fn call(&mut self, callee: FuncId, args: Vec<Value>, ty: Ty) -> (result: Value)
        requires
            old(self)@.ready(),
        ensures
            (final(self)@, result) == old(self)@.call(callee, args@, ty@),
            final(self)@.keeps_ended(old(self)@),
            old(self)@.sound() && values_within(args@, old(self)@.function.values.len()) ==> final(self)@.sound(),
            final(self)@.function.values.len() == old(self)@.function.values.len() + 1,
            final(self)@.function.blocks.len() == old(self)@.function.blocks.len(),
            final(self)@.function.slots.len() == old(self)@.function.slots.len(),
            final(self)@.current == old(self)@.current,
            result.0 == old(self)@.function.values.len(),
    {
        let type_args: Vec<Ty> = Vec::new();
        assert(tys(type_args@) =~= Seq::empty());
        self.emit(InstKind::Call { callee, type_args, args }, ty)
    }

    /// Whether two values are equal.
    pub fn equal(&mut self, left: Value, right: Value) -> (result: Value)
        requires
            old(self)@.ready(),
        ensures
            (final(self)@, result) == old(self)@.equal(left, right),
            final(self)@.keeps_ended(old(self)@),
            old(self)@.sound() && left.0 < old(self)@.function.values.len() && right.0 < old(self)@.function.values.len() ==> final(self)@.sound(),
            final(self)@.function.values.len() == old(self)@.function.values.len() + 1,
            final(self)@.function.blocks.len() == old(self)@.function.blocks.len(),
            final(self)@.function.slots.len() == old(self)@.function.slots.len(),
            final(self)@.current == old(self)@.current,
            result.0 == old(self)@.function.values.len(),
    {
        self.emit(InstKind::Binary { op: BinaryOp::Equal, left, right }, Ty::Bool)
    }

    /// The sum of two integers.
    pub fn plus(&mut self, left: Value, right: Value) -> (result: Value)
        requires
            old(self)@.ready(),
        ensures
            (final(self)@, result) == old(self)@.plus(left, right),
            final(self)@.keeps_ended(old(self)@),
            old(self)@.sound() && left.0 < old(self)@.function.values.len() && right.0 < old(self)@.function.values.len() ==> final(self)@.sound(),
            final(self)@.function.values.len() == old(self)@.function.values.len() + 1,
            final(self)@.function.blocks.len() == old(self)@.function.blocks.len(),
            final(self)@.function.slots.len() == old(self)@.function.slots.len(),
            final(self)@.current == old(self)@.current,
            result.0 == old(self)@.function.values.len(),
    {
        self.emit(InstKind::Binary { op: BinaryOp::Add, left, right }, Ty::integer())
    }

    /// The opposite of a boolean.
    pub fn not(&mut self, operand: Value) -> (result: Value)
        requires
            old(self)@.ready(),
        ensures
            (final(self)@, result) == old(self)@.not(operand),
            final(self)@.keeps_ended(old(self)@),
            old(self)@.sound() && operand.0 < old(self)@.function.values.len() ==> final(self)@.sound(),
            final(self)@.function.values.len() == old(self)@.function.values.len() + 1,
            final(self)@.function.blocks.len() == old(self)@.function.blocks.len(),
            final(self)@.function.slots.len() == old(self)@.function.slots.len(),
            final(self)@.current == old(self)@.current,
            result.0 == old(self)@.function.values.len(),
    {
        self.emit(InstKind::Unary { op: UnaryOp::Not, operand }, Ty::Bool)
    }

    /// Whether two booleans both hold.
    pub fn and(&mut self, left: Value, right: Value) -> (result: Value)
        requires
            old(self)@.ready(),
        ensures
            (final(self)@, result) == old(self)@.and(left, right),
            final(self)@.keeps_ended(old(self)@),
            old(self)@.sound() && left.0 < old(self)@.function.values.len() && right.0 < old(self)@.function.values.len() ==> final(self)@.sound(),
            final(self)@.function.values.len() == old(self)@.function.values.len() + 1,
            final(self)@.function.blocks.len() == old(self)@.function.blocks.len(),
            final(self)@.function.slots.len() == old(self)@.function.slots.len(),
            final(self)@.current == old(self)@.current,
            result.0 == old(self)@.function.values.len(),
    {
        self.emit(InstKind::Binary { op: BinaryOp::BitAnd, left, right }, Ty::Bool)
    }

    /// How many a collection holds.
    pub fn length(&mut self, receiver: Value) -> (result: Value)
        requires
            old(self)@.ready(),
        ensures
            (final(self)@, result) == old(self)@.length(receiver),
            final(self)@.keeps_ended(old(self)@),
            old(self)@.sound() && receiver.0 < old(self)@.function.values.len() ==> final(self)@.sound(),
            final(self)@.function.values.len() == old(self)@.function.values.len() + 1,
            final(self)@.function.blocks.len() == old(self)@.function.blocks.len(),
            final(self)@.function.slots.len() == old(self)@.function.slots.len(),
            final(self)@.current == old(self)@.current,
            result.0 == old(self)@.function.values.len(),
    {
        self.emit(InstKind::Length { receiver }, Ty::integer())
    }

    /// An element of a sequence.
    pub fn index(&mut self, receiver: Value, index: Value, ty: Ty) -> (result: Value)
        requires
            old(self)@.ready(),
        ensures
            (final(self)@, result) == old(self)@.index(receiver, index, ty@),
            final(self)@.keeps_ended(old(self)@),
            old(self)@.sound() && receiver.0 < old(self)@.function.values.len() && index.0 < old(self)@.function.values.len() ==> final(self)@.sound(),
            final(self)@.function.values.len() == old(self)@.function.values.len() + 1,
            final(self)@.function.blocks.len() == old(self)@.function.blocks.len(),
            final(self)@.function.slots.len() == old(self)@.function.slots.len(),
            final(self)@.current == old(self)@.current,
            result.0 == old(self)@.function.values.len(),
    {
        self.emit(InstKind::GetIndex { receiver, index }, ty)
    }

    /// A value that carries what it is at runtime.
    pub fn boxed(&mut self, value: Value) -> (result: Value)
        requires
            old(self)@.ready(),
        ensures
            (final(self)@, result) == old(self)@.boxed(value),
            final(self)@.keeps_ended(old(self)@),
            old(self)@.sound() && value.0 < old(self)@.function.values.len() ==> final(self)@.sound(),
            final(self)@.function.values.len() == old(self)@.function.values.len() + 1,
            final(self)@.function.blocks.len() == old(self)@.function.blocks.len(),
            final(self)@.function.slots.len() == old(self)@.function.slots.len(),
            final(self)@.current == old(self)@.current,
            result.0 == old(self)@.function.values.len(),
    {
        self.emit(InstKind::MakeDyn { interface: None, value }, Ty::Dynamic)
    }

    /// The value inside such a one.
    pub fn unboxed(&mut self, value: Value, ty: Ty) -> (result: Value)
        requires
            old(self)@.ready(),
        ensures
            (final(self)@, result) == old(self)@.unboxed(value, ty@),
            final(self)@.keeps_ended(old(self)@),
            old(self)@.sound() && value.0 < old(self)@.function.values.len() ==> final(self)@.sound(),
            final(self)@.function.values.len() == old(self)@.function.values.len() + 1,
            final(self)@.function.blocks.len() == old(self)@.function.blocks.len(),
            final(self)@.function.slots.len() == old(self)@.function.slots.len(),
            final(self)@.current == old(self)@.current,
            result.0 == old(self)@.function.values.len(),
    {
        self.emit(InstKind::DynValue { value }, ty)
    }

    /// Stops the program with a message.
    pub fn panic(&mut self, message: &str)
        requires
            old(self)@.ready(),
        ensures
            final(self)@ == old(self)@.panic(message@),
            final(self)@.keeps_ended(old(self)@),
            final(self)@.ended(old(self)@.current),
            old(self)@.sound() ==> final(self)@.sound(),
            final(self)@.function.values.len() == old(self)@.function.values.len() + 1,
            final(self)@.function.blocks.len() == old(self)@.function.blocks.len(),
            final(self)@.function.slots.len() == old(self)@.function.slots.len(),
            final(self)@.current == old(self)@.current,
    {
        let text = self.emit(InstKind::Const(Const::Str(message.to_owned())), Ty::Str);
        self.emit_void(InstKind::Panic { message: text });
        self.terminate(Terminator::Trap(Trap::Unreachable));
    }
}

} // verus!
