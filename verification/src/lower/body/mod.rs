//! Lowering one function body.

pub mod asked;
pub mod builtins;
pub mod calls;
pub mod construct;
pub mod deeper;
pub mod derived;
pub mod expr;
pub mod flat;
pub mod flow;
pub mod given;
pub mod held;
pub mod iterate;
pub mod kept;
pub mod kinds;
pub mod laws;
pub mod leaves;
pub mod lookups;
pub mod patterns;
pub mod queries;
pub mod scopes;
pub mod sound;
pub mod stmt;

use vstd::prelude::*;
use vstd::string::StringExecFns;

use crate::ast::{Block, Expr};
use crate::inst::{
    Inst, InstKind, InstKindView, InstView, MethodId, Terminator, TerminatorView, Value,
};
use crate::lower::types::Declared;
use crate::lower::{CompilationMode, Gap, GapView};
use crate::program::{
    id_limit, views, BlockId, FuncId, Function, FunctionView, Program, ProgramView, SlotId,
};
use crate::sema::{Facts, ModuleId};
use crate::span::Span;
use crate::text::{names, same_text};
use crate::ty::{Ty, TyView, TypeId};

use held::{held_for, Held};

verus! {

/// What a call site needs to know about the function it reaches.
pub struct Callee<'a> {
    pub id: FuncId,
    /// Whether the first argument is the receiver.
    pub takes_self: bool,
    /// The parameters, without `self`, in declaration order.
    pub params: Vec<Parameter<'a>>,
    /// Its type parameters, in declaration order. A call carries one argument
    /// for each, and passes its arguments at the parameter types with those put
    /// in place.
    pub type_params: Vec<String>,
    /// Whether an exception can escape it, which is what makes the call give
    /// back what it threw as well as what it returned.
    pub throws: bool,
    /// Whether the call produces a `Task` rather than the result.
    pub asynchronous: bool,
}

/// A [`Callee`] with its contents as mathematical values.
pub struct CalleeView<'a> {
    pub id: FuncId,
    pub takes_self: bool,
    pub params: Seq<ParameterView<'a>>,
    pub type_params: Seq<Seq<char>>,
    pub throws: bool,
    pub asynchronous: bool,
}

impl<'a> View for Callee<'a> {
    type V = CalleeView<'a>;

    open spec fn view(&self) -> CalleeView<'a> {
        CalleeView {
            id: self.id,
            takes_self: self.takes_self,
            params: views(self.params@),
            type_params: names(self.type_params@),
            throws: self.throws,
            asynchronous: self.asynchronous,
        }
    }
}

/// A parameter of a function.
pub struct Parameter<'a> {
    pub name: &'a String,
    pub ty: Ty,
    /// `...values`, which takes every argument from its position on.
    pub variadic: bool,
    /// Evaluated at the call site when the call leaves the argument out.
    pub default: Option<&'a Expr>,
}

/// A [`Parameter`] with its type as a mathematical value.
pub struct ParameterView<'a> {
    pub name: &'a String,
    pub ty: TyView,
    pub variadic: bool,
    pub default: Option<&'a Expr>,
}

impl<'a> View for Parameter<'a> {
    type V = ParameterView<'a>;

    open spec fn view(&self) -> ParameterView<'a> {
        ParameterView {
            name: self.name,
            ty: self.ty@,
            variadic: self.variadic,
            default: self.default,
        }
    }
}

/// A computed member, and the functions it reads and writes through.
pub struct Property<'a> {
    pub owner: TypeId,
    pub name: &'a String,
    pub ty: Ty,
    pub get: FuncId,
    /// Absent where the property is read-only. Setters are explicit.
    pub set: Option<FuncId>,
}

/// A [`Property`] with its type as a mathematical value.
pub struct PropertyView<'a> {
    pub owner: TypeId,
    pub name: &'a String,
    pub ty: TyView,
    pub get: FuncId,
    pub set: Option<FuncId>,
}

impl<'a> View for Property<'a> {
    type V = PropertyView<'a>;

    open spec fn view(&self) -> PropertyView<'a> {
        PropertyView {
            owner: self.owner,
            name: self.name,
            ty: self.ty@,
            get: self.get,
            set: self.set,
        }
    }
}

/// The default written beside a field.
#[derive(Clone, Copy)]
pub struct FieldDefault<'a> {
    pub owner: TypeId,
    pub field: u32,
    pub value: &'a Expr,
}

/// A module-level `const`: where it is declared, and its initializer.
#[derive(Clone, Copy)]
pub struct Constant<'a> {
    pub module: ModuleId,
    pub name: &'a String,
    pub span: Span,
    pub value: &'a Expr,
}

/// What lowering a body needs from the rest of the program.
#[derive(Clone, Copy)]
pub struct Context<'a> {
    pub facts: &'a Facts,
    pub mode: CompilationMode,
    /// What each declared type is called.
    pub ids: &'a Vec<Declared<'a>>,
    /// What each function declaration became, by the span the checker recorded
    /// a call as reaching.
    pub callees: &'a Vec<(Span, Callee<'a>)>,
    /// The interface methods, which have declarations and no bodies.
    pub virtuals: &'a Vec<(Span, MethodId)>,
    /// The default written beside a field.
    pub defaults: &'a Vec<FieldDefault<'a>>,
    /// The computed members of each type.
    pub properties: &'a Vec<Property<'a>>,
    /// The `display` of each struct and enum that has one.
    pub displays: &'a Vec<(TypeId, FuncId)>,
    /// The `eq` of each struct and enum that has one.
    pub equals: &'a Vec<(TypeId, FuncId)>,
    /// The `hash` of each struct and enum that has one.
    pub hashes: &'a Vec<(TypeId, FuncId)>,
    pub program: &'a Program,
    /// The module the body is written in.
    pub module: ModuleId,
    /// Each module-level `const`.
    pub constants: &'a Vec<Constant<'a>>,
}

/// A [`Context`] with its contents as mathematical values.
pub struct ContextView<'a> {
    pub facts: &'a Facts,
    pub mode: CompilationMode,
    pub ids: Seq<Declared<'a>>,
    pub callees: Seq<(Span, CalleeView<'a>)>,
    pub virtuals: Seq<(Span, MethodId)>,
    pub defaults: Seq<FieldDefault<'a>>,
    pub properties: Seq<PropertyView<'a>>,
    pub displays: Seq<(TypeId, FuncId)>,
    pub equals: Seq<(TypeId, FuncId)>,
    pub hashes: Seq<(TypeId, FuncId)>,
    pub program: ProgramView,
    pub module: ModuleId,
    pub constants: Seq<Constant<'a>>,
}

/// Functions and where they are declared.
pub open spec fn callee_views<'a>(callees: Seq<(Span, Callee<'a>)>) -> Seq<(Span, CalleeView<'a>)> {
    Seq::new(callees.len(), |i: int| (callees[i].0, callees[i].1@))
}

impl<'a> View for Context<'a> {
    type V = ContextView<'a>;

    open spec fn view(&self) -> ContextView<'a> {
        ContextView {
            facts: self.facts,
            mode: self.mode,
            ids: self.ids@,
            callees: callee_views(self.callees@),
            virtuals: self.virtuals@,
            defaults: self.defaults@,
            properties: views(self.properties@),
            displays: self.displays@,
            equals: self.equals@,
            hashes: self.hashes@,
            program: self.program@,
            module: self.module,
            constants: self.constants@,
        }
    }
}

/// What runs on the way out of a scope, in reverse order of registration.
#[derive(Clone, Copy)]
pub enum Cleanup<'a> {
    Deferred(&'a Expr),
    Finally(&'a Block),
}

/// Where a thrown value goes.
pub struct Handler {
    /// The block that decides which clause catches it. Its first parameter is
    /// the thrown value.
    pub block: BlockId,
    /// The first scope to unwind on the way there. The scopes outside it stay
    /// open, so a `finally` around the handler runs when the handler is done
    /// rather than on the way to it.
    pub frame: usize,
    /// The bindings the handler's block takes after the thrown value, which are
    /// the ones the guarded block writes to.
    pub carried: Vec<u32>,
}

/// A [`Handler`] with its bindings as a sequence.
pub struct HandlerView {
    pub block: BlockId,
    pub frame: nat,
    pub carried: Seq<u32>,
}

impl View for Handler {
    type V = HandlerView;

    open spec fn view(&self) -> HandlerView {
        HandlerView { block: self.block, frame: self.frame as nat, carried: self.carried@ }
    }
}

/// A loop being lowered, and where leaving it goes.
pub struct Loop<'a> {
    pub label: Option<&'a String>,
    /// Where `continue` goes. Absent for a `repeat`, whose condition is part of
    /// its body and so has no block of its own.
    pub again: Option<BlockId>,
    /// Where `break` goes.
    pub exit: BlockId,
    /// The bindings both of those pass along.
    pub carried: Vec<u32>,
    /// How many scopes were open around the loop, so that leaving it runs what
    /// every scope inside it deferred.
    pub depth: usize,
}

/// A [`Loop`] with its label and bindings as mathematical values.
pub struct LoopView {
    pub label: Option<Seq<char>>,
    pub again: Option<BlockId>,
    pub exit: BlockId,
    pub carried: Seq<u32>,
    pub depth: nat,
}

/// What an optional text spells.
pub open spec fn label_view(label: Option<&String>) -> Option<Seq<char>> {
    match label {
        Some(name) => Some(name@),
        None => None,
    }
}

impl View for Loop<'_> {
    type V = LoopView;

    open spec fn view(&self) -> LoopView {
        LoopView {
            label: label_view(self.label),
            again: self.again,
            exit: self.exit,
            carried: self.carried@,
            depth: self.depth as nat,
        }
    }
}

/// One path reaching the end of a construct: the block it left from, and what
/// every binding held there.
pub struct Arrival {
    pub block: BlockId,
    pub defs: Held<Value>,
}

/// An [`Arrival`] with what was held as a map.
pub struct ArrivalView {
    pub block: BlockId,
    pub defs: Map<u32, Value>,
}

impl View for Arrival {
    type V = ArrivalView;

    open spec fn view(&self) -> ArrivalView {
        ArrivalView { block: self.block, defs: self.defs@ }
    }
}

/// A function body being lowered.
pub struct Body<'a> {
    pub context: Context<'a>,
    pub function: Function,
    /// The block instructions are being appended to.
    pub current: BlockId,
    /// Whether that block has already been left, which is what makes the
    /// statements after a `return` unreachable.
    pub left: bool,
    /// The names in scope, innermost last. A name written twice in one scope
    /// shadows rather than replaces, so each scope is a list.
    pub scopes: Vec<Vec<(String, u32)>>,
    /// What each open scope runs on the way out, in the order it was written.
    /// One frame per entry in `scopes`.
    pub deferred: Vec<Vec<Cleanup<'a>>>,
    /// The `try` statements open around what is being lowered, innermost last.
    /// Empty where a thrown value leaves the function.
    pub handlers: Vec<Handler>,
    /// What the source says the function gives back. Where an exception can
    /// escape it, the function's result is that or what was thrown, and this is
    /// the half a `return` writes.
    pub declared: Ty,
    /// Whether an exception can escape this function.
    pub throws: bool,
    /// The value each binding currently holds.
    pub defs: Held<Value>,
    /// The stack slot a binding whose address is taken lives in.
    pub slots: Held<SlotId>,
    /// The module-level constants being read, outermost first.
    pub expanding: Vec<String>,
    /// The next binding.
    pub next_var: u32,
    /// The loops open around what is being lowered, innermost last.
    pub loops: Vec<Loop<'a>>,
    /// The names something in this function assigns to, which are the ones a
    /// closure cannot capture by value.
    pub mutated: Vec<String>,
    /// The closures this body built, in the order they took their ids.
    pub made: Vec<(FuncId, Function)>,
    /// The next function id nothing has taken. A closure takes one as it is
    /// lowered, because it is a function nothing declared.
    pub next_function: u32,
    pub gaps: Vec<Gap>,
}

/// A [`Body`] with everything in it as mathematical values.
pub struct BodyView<'a> {
    pub context: ContextView<'a>,
    pub function: FunctionView,
    pub current: BlockId,
    pub left: bool,
    pub scopes: Seq<Seq<(Seq<char>, u32)>>,
    pub deferred: Seq<Seq<Cleanup<'a>>>,
    pub handlers: Seq<HandlerView>,
    pub declared: TyView,
    pub throws: bool,
    pub defs: Map<u32, Value>,
    pub slots: Map<u32, SlotId>,
    pub expanding: Seq<Seq<char>>,
    pub next_var: u32,
    pub loops: Seq<LoopView>,
    pub mutated: Seq<Seq<char>>,
    pub made: Seq<(FuncId, FunctionView)>,
    pub next_function: u32,
    pub gaps: Seq<GapView>,
}

/// The names of one scope.
pub open spec fn scope_view(scope: Seq<(String, u32)>) -> Seq<(Seq<char>, u32)> {
    Seq::new(scope.len(), |i: int| (scope[i].0@, scope[i].1))
}

/// The names of every scope.
pub open spec fn scope_views(scopes: Seq<Vec<(String, u32)>>) -> Seq<Seq<(Seq<char>, u32)>> {
    Seq::new(scopes.len(), |i: int| scope_view(scopes[i]@))
}

/// What every scope deferred.
pub open spec fn deferred_views<'a>(deferred: Seq<Vec<Cleanup<'a>>>) -> Seq<Seq<Cleanup<'a>>> {
    Seq::new(deferred.len(), |i: int| deferred[i]@)
}

/// Functions and what they are called.
pub open spec fn made_views(made: Seq<(FuncId, Function)>) -> Seq<(FuncId, FunctionView)> {
    Seq::new(made.len(), |i: int| (made[i].0, made[i].1@))
}

impl<'a> View for Body<'a> {
    type V = BodyView<'a>;

    open spec fn view(&self) -> BodyView<'a> {
        BodyView {
            context: self.context@,
            function: self.function@,
            current: self.current,
            left: self.left,
            scopes: scope_views(self.scopes@),
            deferred: deferred_views(self.deferred@),
            handlers: views(self.handlers@),
            declared: self.declared@,
            throws: self.throws,
            defs: self.defs@,
            slots: self.slots@,
            expanding: names(self.expanding@),
            next_var: self.next_var,
            loops: views(self.loops@),
            mutated: names(self.mutated@),
            made: made_views(self.made@),
            next_function: self.next_function,
            gaps: views(self.gaps@),
        }
    }
}

impl<'a> BodyView<'a> {
    /// One more gap.
    #[verifier::opaque]
    pub open spec fn gap(self, span: Span, what: Seq<char>) -> BodyView<'a> {
        BodyView { gaps: self.gaps.push(GapView { span, what }), ..self }
    }

    /// Whether one more value can be told apart, and there is a block to write
    /// into.
    pub open spec fn has_room(self) -> bool {
        self.function.values.len() < id_limit() && self.current.0 < self.function.blocks.len()
    }

    /// One more instruction, and what it produces; a gap where nothing more can
    /// be told apart.
    #[verifier::opaque]
    pub open spec fn emit(self, kind: InstKindView, ty: TyView, span: Span) -> (
        BodyView<'a>,
        Value,
    ) {
        if self.has_room() {
            let result = self.function.next_value();
            (
                BodyView {
                    function: self.function.add_value(ty).push_inst(
                        self.current,
                        InstView { result: Some(result), kind, span },
                    ),
                    ..self
                },
                result,
            )
        } else {
            (self.gap(span, "a function too large to lower"@), Value(0))
        }
    }

    /// One more instruction, which produces nothing.
    #[verifier::opaque]
    pub open spec fn emit_void(self, kind: InstKindView, span: Span) -> BodyView<'a> {
        if self.current.0 < self.function.blocks.len() {
            BodyView {
                function: self.function.push_inst(
                    self.current,
                    InstView { result: None, kind, span },
                ),
                ..self
            }
        } else {
            self
        }
    }

    /// The block left, and ended where it was not already.
    #[verifier::opaque]
    pub open spec fn terminate(self, term: TerminatorView) -> BodyView<'a> {
        if self.current.0 < self.function.blocks.len() && self.function.block(
            self.current,
        ).term is None {
            BodyView {
                function: self.function.end_block(self.current, term),
                left: true,
                ..self
            }
        } else {
            BodyView { left: true, ..self }
        }
    }

    /// One more block, and what it is called; a gap where no more can be told
    /// apart.
    #[verifier::opaque]
    pub open spec fn add_block(self, span: Span) -> (BodyView<'a>, BlockId) {
        if self.function.blocks.len() < id_limit() {
            (
                BodyView { function: self.function.add_block(), ..self },
                self.function.next_block(),
            )
        } else {
            (self.gap(span, "a function too large to lower"@), BlockId(0))
        }
    }

    /// One more parameter of a block, and what it is called.
    #[verifier::opaque]
    pub open spec fn add_block_param(self, block: BlockId, ty: TyView, span: Span) -> (
        BodyView<'a>,
        Value,
    ) {
        if self.function.values.len() < id_limit() && block.0 < self.function.blocks.len() {
            (
                BodyView { function: self.function.add_block_param(block, ty), ..self },
                self.function.next_value(),
            )
        } else {
            (self.gap(span, "a function too large to lower"@), Value(0))
        }
    }

    /// A slot of its own for a binding.
    #[verifier::opaque]
    pub open spec fn add_slot(self, var: u32, ty: TyView, span: Span) -> (BodyView<'a>, SlotId) {
        if self.function.slots.len() < id_limit() {
            let slot = self.function.next_slot();
            (
                BodyView {
                    function: self.function.add_slot(ty),
                    slots: self.slots.insert(var, slot),
                    ..self
                },
                slot,
            )
        } else {
            (self.gap(span, "a function too large to lower"@), SlotId(0))
        }
    }

    /// The same body, going on in another block.
    #[verifier::opaque]
    pub open spec fn switch_to(self, block: BlockId) -> BodyView<'a> {
        BodyView { current: block, left: false, ..self }
    }

    /// The type of a value.
    #[verifier::opaque]
    pub open spec fn type_at(self, value: Value) -> TyView {
        if value.0 < self.function.values.len() {
            self.function.type_of(value)
        } else {
            TyView::Never
        }
    }

    /// The type of a slot.
    #[verifier::opaque]
    pub open spec fn slot_type(self, slot: SlotId) -> TyView {
        if slot.0 < self.function.slots.len() {
            self.function.slots[slot.0 as int]
        } else {
            TyView::Never
        }
    }

    /// The parameters of a block.
    #[verifier::opaque]
    pub open spec fn params_of(self, block: BlockId) -> Seq<Value> {
        if block.0 < self.function.blocks.len() {
            self.function.block(block).params
        } else {
            Seq::empty()
        }
    }

    /// A new binding in the innermost scope.
    #[verifier::opaque]
    pub open spec fn declare(self, name: Seq<char>) -> (BodyView<'a>, u32) {
        if self.scopes.len() > 0 && self.next_var < u32::MAX {
            (
                BodyView {
                    scopes: self.scopes.update(
                        self.scopes.len() - 1,
                        self.scopes.last().push((name, self.next_var)),
                    ),
                    next_var: (self.next_var + 1) as u32,
                    ..self
                },
                self.next_var,
            )
        } else {
            (self, self.next_var)
        }
    }

    /// A scope opened.
    #[verifier::opaque]
    pub open spec fn open(self) -> BodyView<'a> {
        BodyView {
            scopes: self.scopes.push(Seq::empty()),
            deferred: self.deferred.push(Seq::empty()),
            ..self
        }
    }

    /// The innermost scope dropped.
    #[verifier::opaque]
    pub open spec fn drop_scope(self) -> BodyView<'a> {
        BodyView {
            scopes: if self.scopes.len() > 0 {
                self.scopes.drop_last()
            } else {
                self.scopes
            },
            deferred: if self.deferred.len() > 0 {
                self.deferred.drop_last()
            } else {
                self.deferred
            },
            ..self
        }
    }

    /// Something more the innermost scope runs on the way out.
    #[verifier::opaque]
    pub open spec fn defer(self, cleanup: Cleanup<'a>) -> BodyView<'a> {
        if self.deferred.len() > 0 {
            BodyView {
                deferred: self.deferred.update(
                    self.deferred.len() - 1,
                    self.deferred.last().push(cleanup),
                ),
                ..self
            }
        } else {
            self
        }
    }

    /// What a scope runs on the way out.
    #[verifier::opaque]
    pub open spec fn cleanups(self, frame: nat) -> Seq<Cleanup<'a>> {
        if frame < self.deferred.len() {
            self.deferred[frame as int]
        } else {
            Seq::empty()
        }
    }

    /// How many scopes are open.
    #[verifier::opaque]
    pub open spec fn depth(self) -> nat {
        self.scopes.len()
    }

    /// A `try` opened.
    #[verifier::opaque]
    pub open spec fn push_handler(self, handler: HandlerView) -> BodyView<'a> {
        BodyView { handlers: self.handlers.push(handler), ..self }
    }

    /// The innermost `try` closed.
    #[verifier::opaque]
    pub open spec fn pop_handler(self) -> BodyView<'a> {
        BodyView {
            handlers: if self.handlers.len() > 0 {
                self.handlers.drop_last()
            } else {
                self.handlers
            },
            ..self
        }
    }

    /// The innermost `try`.
    #[verifier::opaque]
    pub open spec fn handler(self) -> Option<HandlerView> {
        if self.handlers.len() > 0 {
            Some(self.handlers.last())
        } else {
            None
        }
    }

    /// A loop opened.
    #[verifier::opaque]
    pub open spec fn push_loop(self, held: LoopView) -> BodyView<'a> {
        BodyView { loops: self.loops.push(held), ..self }
    }

    /// The innermost loop closed.
    #[verifier::opaque]
    pub open spec fn pop_loop(self) -> BodyView<'a> {
        BodyView {
            loops: if self.loops.len() > 0 {
                self.loops.drop_last()
            } else {
                self.loops
            },
            ..self
        }
    }

    /// The innermost loop, or the innermost a label names.
    #[verifier::opaque]
    pub open spec fn find_loop(self, label: Option<Seq<char>>) -> Option<LoopView> {
        loop_among(self.loops, label, self.loops.len())
    }

    /// What a binding holds.
    #[verifier::opaque]
    pub open spec fn held(self, var: u32) -> Option<Value> {
        held_for(self.defs, var)
    }

    /// What a binding holds, which is there wherever it is asked for.
    #[verifier::opaque]
    pub open spec fn def_of(self, var: u32) -> Value {
        match held_for(self.defs, var) {
            Some(value) => value,
            None => Value(0),
        }
    }

    /// The slot a binding lives in.
    #[verifier::opaque]
    pub open spec fn slot_of(self, var: u32) -> Option<SlotId> {
        held_for(self.slots, var)
    }

    /// A binding holding something else.
    #[verifier::opaque]
    pub open spec fn set_def(self, var: u32, value: Value) -> BodyView<'a> {
        BodyView { defs: self.defs.insert(var, value), ..self }
    }

    /// What every binding holds.
    #[verifier::opaque]
    pub open spec fn saved_defs(self) -> Map<u32, Value> {
        self.defs
    }

    /// Every binding holding what it held.
    #[verifier::opaque]
    pub open spec fn restore(self, defs: Map<u32, Value>) -> BodyView<'a> {
        BodyView { defs, ..self }
    }

    /// Where control is, and what every binding holds there.
    #[verifier::opaque]
    pub open spec fn arrival(self) -> ArrivalView {
        ArrivalView { block: self.current, defs: self.defs }
    }

    /// The innermost binding of a name.
    #[verifier::opaque]
    pub open spec fn lookup(self, name: Seq<char>) -> Option<u32> {
        bound_in(self.scopes, name, self.scopes.len())
    }

    /// A constant being read.
    #[verifier::opaque]
    pub open spec fn begin_constant(self, name: Seq<char>) -> BodyView<'a> {
        BodyView { expanding: self.expanding.push(name), ..self }
    }

    /// A constant read.
    #[verifier::opaque]
    pub open spec fn end_constant(self) -> BodyView<'a> {
        BodyView {
            expanding: if self.expanding.len() > 0 {
                self.expanding.drop_last()
            } else {
                self.expanding
            },
            ..self
        }
    }

    /// Whether a constant is being read.
    #[verifier::opaque]
    pub open spec fn is_expanding(self, name: Seq<char>) -> bool {
        self.expanding.contains(name)
    }

    /// Whether something in the function assigns to a name.
    #[verifier::opaque]
    pub open spec fn is_mutated(self, name: Seq<char>) -> bool {
        self.mutated.contains(name)
    }
}

/// The innermost loop a label names among the first `count`.
pub open spec fn loop_among(
    loops: Seq<LoopView>,
    label: Option<Seq<char>>,
    count: nat,
) -> Option<LoopView>
    decreases count,
{
    if count == 0 {
        None
    } else if label is None || loops[count - 1].label == label {
        Some(loops[count - 1])
    } else {
        loop_among(loops, label, (count - 1) as nat)
    }
}

/// The last binding of a name among the first `count` of a scope.
pub open spec fn bound_among(
    scope: Seq<(Seq<char>, u32)>,
    name: Seq<char>,
    count: nat,
) -> Option<u32>
    decreases count,
{
    if count == 0 {
        None
    } else if scope[count - 1].0 == name {
        Some(scope[count - 1].1)
    } else {
        bound_among(scope, name, (count - 1) as nat)
    }
}

/// The innermost binding of a name among the first `count` scopes.
pub open spec fn bound_in(
    scopes: Seq<Seq<(Seq<char>, u32)>>,
    name: Seq<char>,
    count: nat,
) -> Option<u32>
    decreases count,
{
    if count == 0 {
        None
    } else {
        match bound_among(scopes[count - 1], name, scopes[count - 1].len()) {
            Some(var) => Some(var),
            None => bound_in(scopes, name, (count - 1) as nat),
        }
    }
}

impl<'a> Body<'a> {
    /// Records something the lowering does not handle.
    pub fn gap(&mut self, span: Span, what: &str)
        ensures
            final(self)@ == old(self)@.gap(span, what@),
    {
        proof {
            reveal(BodyView::gap);
        }
        let gap = Gap { span, what: what.to_owned() };
        let ghost before = self.gaps@;
        self.gaps.push(gap);
        assert(views(self.gaps@) =~= views(before).push(gap@));
    }

    /// Writes an instruction, and gives back the value it produces.
    pub fn emit(&mut self, kind: InstKind, ty: Ty, span: Span) -> (result: Value)
        ensures
            (final(self)@, result) == old(self)@.emit(kind@, ty@, span),
    {
        proof {
            reveal(BodyView::emit);
        }
        if (self.function.values.len() as u64) < 0x1_0000_0000 && (self.current.0 as usize)
            < self.function.blocks.len() {
            let result = self.function.add_value(ty);
            self.function.push_inst(
                self.current,
                Inst { result: Some(result), kind, span },
            );
            result
        } else {
            self.gap(span, "a function too large to lower");
            Value(0)
        }
    }

    /// Writes an instruction that produces no value: one that is there for what
    /// it does.
    pub fn emit_void(&mut self, kind: InstKind, span: Span)
        ensures
            final(self)@ == old(self)@.emit_void(kind@, span),
    {
        proof {
            reveal(BodyView::emit_void);
        }
        if (self.current.0 as usize) < self.function.blocks.len() {
            self.function.push_inst(self.current, Inst { result: None, kind, span });
        }
    }

    /// Leaves the block, and ends it where it is not ended.
    pub fn terminate(&mut self, term: Terminator)
        ensures
            final(self)@ == old(self)@.terminate(term@),
    {
        proof {
            reveal(BodyView::terminate);
        }
        if (self.current.0 as usize) < self.function.blocks.len() {
            let open = self.function.block(self.current).term.is_none();
            if open {
                self.function.end_block(self.current, term);
            }
        }
        self.left = true;
    }

    /// Adds a block.
    pub fn add_block(&mut self, span: Span) -> (block: BlockId)
        ensures
            (final(self)@, block) == old(self)@.add_block(span),
    {
        proof {
            reveal(BodyView::add_block);
        }
        if (self.function.blocks.len() as u64) < 0x1_0000_0000 {
            self.function.add_block()
        } else {
            self.gap(span, "a function too large to lower");
            BlockId(0)
        }
    }

    /// Adds a parameter to a block.
    pub fn add_block_param(&mut self, block: BlockId, ty: Ty, span: Span) -> (value: Value)
        ensures
            (final(self)@, value) == old(self)@.add_block_param(block, ty@, span),
    {
        proof {
            reveal(BodyView::add_block_param);
        }
        if (self.function.values.len() as u64) < 0x1_0000_0000 && (block.0 as usize)
            < self.function.blocks.len() {
            self.function.add_block_param(block, ty)
        } else {
            self.gap(span, "a function too large to lower");
            Value(0)
        }
    }

    /// Gives a binding a slot of its own.
    pub fn add_slot(&mut self, var: u32, ty: Ty, span: Span) -> (slot: SlotId)
        ensures
            (final(self)@, slot) == old(self)@.add_slot(var, ty@, span),
    {
        proof {
            reveal(BodyView::add_slot);
        }
        if (self.function.slots.len() as u64) < 0x1_0000_0000 {
            let slot = self.function.add_slot(ty);
            self.slots.insert(var, slot);
            slot
        } else {
            self.gap(span, "a function too large to lower");
            SlotId(0)
        }
    }

    /// Goes on in another block.
    pub fn switch_to(&mut self, block: BlockId)
        ensures
            final(self)@ == old(self)@.switch_to(block),
    {
        proof {
            reveal(BodyView::switch_to);
        }
        self.current = block;
        self.left = false;
    }

    /// Whether the block has been left.
    pub fn has_left(&self) -> (left: bool)
        ensures
            left == self@.left,
    {
        self.left
    }

    /// The type of a value.
    pub fn type_at(&self, value: Value) -> (ty: Ty)
        ensures
            ty@ == self@.type_at(value),
    {
        proof {
            reveal(BodyView::type_at);
        }
        if (value.0 as usize) < self.function.values.len() {
            self.function.type_of(value).clone()
        } else {
            Ty::Never
        }
    }

    /// The type of a slot.
    pub fn slot_type(&self, slot: SlotId) -> (ty: Ty)
        ensures
            ty@ == self@.slot_type(slot),
    {
        proof {
            reveal(BodyView::slot_type);
        }
        if (slot.0 as usize) < self.function.slots.len() {
            self.function.slot_type(slot).clone()
        } else {
            Ty::Never
        }
    }

    /// The parameters of a block.
    pub fn params_of(&self, block: BlockId) -> (params: Vec<Value>)
        ensures
            params@ == self@.params_of(block),
    {
        proof {
            reveal(BodyView::params_of);
        }
        if (block.0 as usize) < self.function.blocks.len() {
            crate::inst::clone_values(&self.function.block(block).params)
        } else {
            Vec::new()
        }
    }

    /// Declares a binding in the innermost scope.
    pub fn declare(&mut self, name: &str) -> (var: u32)
        ensures
            (final(self)@, var) == old(self)@.declare(name@),
    {
        proof {
            reveal(BodyView::declare);
        }
        let var = self.next_var;
        let count: usize = self.scopes.len();
        if count > 0 && var < u32::MAX {
            let ghost before = self.scopes@;
            let ghost inner = before[count - 1]@;
            let entry = (name.to_owned(), var);
            self.scopes[count - 1].push(entry);
            self.next_var = var + 1;
            assert(scope_view(self.scopes@[count - 1]@) =~= scope_view(inner).push((name@, var)));
            assert(scope_views(self.scopes@) =~= scope_views(before).update(
                count - 1,
                scope_view(inner).push((name@, var)),
            ));
        }
        var
    }

    /// Opens a scope. Bindings and deferred expressions belong to the innermost
    /// one.
    pub fn open(&mut self)
        ensures
            final(self)@ == old(self)@.open(),
    {
        proof {
            reveal(BodyView::open);
        }
        let ghost scopes = self.scopes@;
        let ghost deferred = self.deferred@;
        let scope: Vec<(String, u32)> = Vec::new();
        let frame: Vec<Cleanup<'a>> = Vec::new();
        assert(scope_view(scope@) =~= Seq::empty());
        self.scopes.push(scope);
        self.deferred.push(frame);
        assert(scope_views(self.scopes@) =~= scope_views(scopes).push(Seq::empty()));
        assert(deferred_views(self.deferred@) =~= deferred_views(deferred).push(Seq::empty()));
    }

    /// Drops the innermost scope.
    pub fn drop_scope(&mut self)
        ensures
            final(self)@ == old(self)@.drop_scope(),
    {
        proof {
            reveal(BodyView::drop_scope);
        }
        let ghost scopes = self.scopes@;
        let ghost deferred = self.deferred@;
        let _ = self.scopes.pop();
        let _ = self.deferred.pop();
        proof {
            if scopes.len() > 0 {
                assert(scope_views(self.scopes@) =~= scope_views(scopes).drop_last());
            }
            if deferred.len() > 0 {
                assert(deferred_views(self.deferred@) =~= deferred_views(deferred).drop_last());
            }
        }
    }

    /// Adds something the innermost scope runs on the way out.
    pub fn defer(&mut self, cleanup: Cleanup<'a>)
        ensures
            final(self)@ == old(self)@.defer(cleanup),
    {
        proof {
            reveal(BodyView::defer);
        }
        let count: usize = self.deferred.len();
        if count > 0 {
            let ghost before = self.deferred@;
            let ghost inner = before[count - 1]@;
            self.deferred[count - 1].push(cleanup);
            assert(deferred_views(self.deferred@) =~= deferred_views(before).update(
                count - 1,
                inner.push(cleanup),
            ));
        }
    }

    /// What a scope runs on the way out.
    pub fn cleanups(&self, frame: usize) -> (held: Vec<Cleanup<'a>>)
        ensures
            held@ == self@.cleanups(frame as nat),
    {
        proof {
            reveal(BodyView::cleanups);
        }
        let mut held: Vec<Cleanup<'a>> = Vec::new();
        if frame < self.deferred.len() {
            let from = &self.deferred[frame];
            let mut i: usize = 0;
            while i < from.len()
                invariant
                    i <= from.len(),
                    held@ == from@.take(i as int),
                decreases from.len() - i,
            {
                held.push(from[i]);
                assert(held@ =~= from@.take(i + 1));
                i += 1;
            }
            assert(from@.take(from@.len() as int) =~= from@);
        }
        held
    }

    /// How many scopes are open.
    pub fn depth(&self) -> (depth: usize)
        ensures
            depth == self@.depth(),
    {
        proof {
            reveal(BodyView::depth);
        }
        self.scopes.len()
    }

    /// Opens a `try`.
    pub fn push_handler(&mut self, handler: Handler)
        ensures
            final(self)@ == old(self)@.push_handler(handler@),
    {
        proof {
            reveal(BodyView::push_handler);
        }
        let ghost before = self.handlers@;
        self.handlers.push(handler);
        assert(views(self.handlers@) =~= views(before).push(handler@));
    }

    /// Closes the innermost `try`.
    pub fn pop_handler(&mut self)
        ensures
            final(self)@ == old(self)@.pop_handler(),
    {
        proof {
            reveal(BodyView::pop_handler);
        }
        let ghost before = self.handlers@;
        let _ = self.handlers.pop();
        proof {
            if before.len() > 0 {
                assert(views(self.handlers@) =~= views(before).drop_last());
            }
        }
    }

    /// The innermost `try`.
    pub fn handler(&self) -> (handler: Option<Handler>)
        ensures
            match handler {
                Some(held) => self@.handler() == Some(held@),
                None => self@.handler() is None,
            },
    {
        proof {
            reveal(BodyView::handler);
        }
        let count: usize = self.handlers.len();
        if count > 0 {
            let held = &self.handlers[count - 1];
            assert(views(self.handlers@).last() == held@);
            Some(
                Handler {
                    block: held.block,
                    frame: held.frame,
                    carried: clone_vars(&held.carried),
                },
            )
        } else {
            None
        }
    }

    /// Opens a loop.
    pub fn push_loop(&mut self, held: Loop<'a>)
        ensures
            final(self)@ == old(self)@.push_loop(held@),
    {
        proof {
            reveal(BodyView::push_loop);
        }
        let ghost before = self.loops@;
        self.loops.push(held);
        assert(views(self.loops@) =~= views(before).push(held@));
    }

    /// Closes the innermost loop.
    pub fn pop_loop(&mut self)
        ensures
            final(self)@ == old(self)@.pop_loop(),
    {
        proof {
            reveal(BodyView::pop_loop);
        }
        let ghost before = self.loops@;
        let _ = self.loops.pop();
        proof {
            if before.len() > 0 {
                assert(views(self.loops@) =~= views(before).drop_last());
            }
        }
    }

    /// The innermost loop, or the innermost a label names.
    pub fn find_loop(&self, label: Option<&String>) -> (found: Option<Loop<'a>>)
        ensures
            match found {
                Some(held) => self@.find_loop(label_view(label)) == Some(held@),
                None => self@.find_loop(label_view(label)) is None,
            },
    {
        proof {
            reveal(BodyView::find_loop);
        }
        let mut i: usize = self.loops.len();
        while i > 0
            invariant
                i <= self.loops.len(),
                loop_among(views(self.loops@), label_view(label), self.loops@.len())
                    == loop_among(views(self.loops@), label_view(label), i as nat),
            decreases i,
        {
            let held = &self.loops[i - 1];
            assert(views(self.loops@)[i - 1] == held@);
            let same = match label {
                Some(wanted) => match held.label {
                    Some(name) => same_text(name.as_str(), wanted.as_str()),
                    None => false,
                },
                None => true,
            };
            if same {
                proof {
                    reveal(BodyView::find_loop);
                }
                return Some(
                    Loop {
                        label: held.label,
                        again: held.again,
                        exit: held.exit,
                        carried: clone_vars(&held.carried),
                        depth: held.depth,
                    },
                );
            }
            i -= 1;
        }
        None
    }

    /// What a binding holds.
    pub fn held(&self, var: u32) -> (value: Option<Value>)
        ensures
            value == self@.held(var),
    {
        proof {
            reveal(BodyView::held);
        }
        self.defs.get(var)
    }

    /// What a binding holds, which is there wherever it is asked for.
    pub fn def_of(&self, var: u32) -> (value: Value)
        ensures
            value == self@.def_of(var),
    {
        proof {
            reveal(BodyView::def_of);
        }
        match self.defs.get(var) {
            Some(value) => value,
            None => Value(0),
        }
    }

    /// The slot a binding lives in.
    pub fn slot_of(&self, var: u32) -> (slot: Option<SlotId>)
        ensures
            slot == self@.slot_of(var),
    {
        proof {
            reveal(BodyView::slot_of);
        }
        self.slots.get(var)
    }

    /// Makes a binding hold something else.
    pub fn set_def(&mut self, var: u32, value: Value)
        ensures
            final(self)@ == old(self)@.set_def(var, value),
    {
        proof {
            reveal(BodyView::set_def);
        }
        self.defs.insert(var, value);
    }

    /// What every binding holds.
    pub fn saved_defs(&self) -> (defs: Held<Value>)
        ensures
            defs@ == self@.saved_defs(),
    {
        proof {
            reveal(BodyView::saved_defs);
        }
        self.defs.copy()
    }

    /// Makes every binding hold what it held.
    pub fn restore(&mut self, defs: &Held<Value>)
        ensures
            final(self)@ == old(self)@.restore(defs@),
    {
        proof {
            reveal(BodyView::restore);
        }
        self.defs = defs.copy();
    }

    /// Where control is, and what every binding holds there.
    pub fn arrival(&self) -> (arrival: Arrival)
        ensures
            arrival@ == self@.arrival(),
    {
        proof {
            reveal(BodyView::arrival);
        }
        Arrival { block: self.current, defs: self.defs.copy() }
    }

    /// The innermost binding of a name.
    pub fn lookup(&self, name: &str) -> (found: Option<u32>)
        ensures
            found == self@.lookup(name@),
    {
        proof {
            reveal(BodyView::lookup);
        }
        let ghost all = scope_views(self.scopes@);
        let mut i: usize = self.scopes.len();
        while i > 0
            invariant
                i <= self.scopes.len(),
                all == scope_views(self.scopes@),
                bound_in(all, name@, all.len()) == bound_in(all, name@, i as nat),
            decreases i,
        {
            let scope = &self.scopes[i - 1];
            let ghost inner = scope_view(scope@);
            assert(all[i - 1] == inner);
            let mut k: usize = scope.len();
            while k > 0
                invariant
                    k <= scope.len(),
                    0 < i <= self.scopes.len(),
                    all == scope_views(self.scopes@),
                    all[i - 1] == inner,
                    inner == scope_view(scope@),
                    bound_in(all, name@, all.len()) == bound_in(all, name@, i as nat),
                    bound_among(inner, name@, inner.len()) == bound_among(
                        inner,
                        name@,
                        k as nat,
                    ),
                decreases k,
            {
                assert(inner[k - 1] == (scope@[k - 1].0@, scope@[k - 1].1));
                if same_text(scope[k - 1].0.as_str(), name) {
                    proof {
                        reveal(BodyView::lookup);
                    }
                    return Some(scope[k - 1].1);
                }
                k -= 1;
            }
            i -= 1;
        }
        None
    }

    /// Begins reading a constant.
    pub fn begin_constant(&mut self, name: &str)
        ensures
            final(self)@ == old(self)@.begin_constant(name@),
    {
        proof {
            reveal(BodyView::begin_constant);
        }
        let ghost before = self.expanding@;
        self.expanding.push(name.to_owned());
        assert(names(self.expanding@) =~= names(before).push(name@));
    }

    /// Ends reading a constant.
    pub fn end_constant(&mut self)
        ensures
            final(self)@ == old(self)@.end_constant(),
    {
        proof {
            reveal(BodyView::end_constant);
        }
        let ghost before = self.expanding@;
        let _ = self.expanding.pop();
        proof {
            if before.len() > 0 {
                assert(names(self.expanding@) =~= names(before).drop_last());
            }
        }
    }

    /// Whether a constant is being read.
    pub fn is_expanding(&self, name: &str) -> (expanding: bool)
        ensures
            expanding == self@.is_expanding(name@),
    {
        proof {
            reveal(BodyView::is_expanding);
        }
        crate::text::is_named(&self.expanding, name)
    }

    /// Whether something in the function assigns to a name.
    pub fn is_mutated(&self, name: &str) -> (mutated: bool)
        ensures
            mutated == self@.is_mutated(name@),
    {
        proof {
            reveal(BodyView::is_mutated);
        }
        crate::text::is_named(&self.mutated, name)
    }
}

/// The same bindings.
pub fn clone_vars(vars: &Vec<u32>) -> (copy: Vec<u32>)
    ensures
        copy@ == vars@,
{
    let mut copied: Vec<u32> = Vec::new();
    let mut i: usize = 0;
    while i < vars.len()
        invariant
            i <= vars.len(),
            copied@ == vars@.take(i as int),
        decreases vars.len() - i,
    {
        copied.push(vars[i]);
        assert(copied@ =~= vars@.take(i + 1));
        i += 1;
    }
    assert(vars@.take(vars@.len() as int) =~= vars@);
    copied
}

} // verus!
