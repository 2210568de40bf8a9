//! A whole program in LIR: its types, its functions, and where it starts.

use vstd::prelude::*;

use crate::inst::{
    clone_maybe_term, clone_values, maybe_term, values_within, Inst, InstView, Terminator,
    TerminatorView, Value,
};
use crate::span::Span;
use crate::text::{clone_maybe_name, clone_names, maybe_name, names};
use crate::ty::{clone_tys, substitute_all, substitute_each, tys, Ty, TyView, TypeId};

verus! {

/// A function in the program. Stable for the life of the [`Program`].
#[derive(Debug, Clone, Copy, PartialEq, Eq, PartialOrd, Ord, Hash, Structural)]
pub struct FuncId(pub u32);

/// A block in one function.
#[derive(Debug, Clone, Copy, PartialEq, Eq, PartialOrd, Ord, Hash, Structural)]
pub struct BlockId(pub u32);

/// A stack slot in one function.
#[derive(Debug, Clone, Copy, PartialEq, Eq, PartialOrd, Ord, Hash, Structural)]
pub struct SlotId(pub u32);

/// What each of several things says, apart from how it is stored.
pub open spec fn views<T: View>(held: Seq<T>) -> Seq<T::V> {
    Seq::new(held.len(), |i: int| held[i]@)
}

/// How many of anything an id can tell apart.
pub open spec fn id_limit() -> nat {
    0x1_0000_0000
}

/// One field of a struct or of an enum variant's payload.
#[derive(Debug, PartialEq)]
pub struct Field {
    pub name: String,
    pub ty: Ty,
}

/// A [`Field`] with its sequences and names as mathematical values.
#[verifier::ext_equal]
pub struct FieldView {
    pub name: Seq<char>,
    pub ty: TyView,
}

impl View for Field {
    type V = FieldView;

    open spec fn view(&self) -> FieldView {
        FieldView {
            name: self.name@,
            ty: self.ty@,
        }
    }
}

impl Clone for Field {
    fn clone(&self) -> (copy: Field)
        ensures
            copy@ == self@,
    {
        Field {
            name: self.name.clone(),
            ty: self.ty.clone(),
        }
    }
}

/// A struct.
#[derive(Debug, PartialEq)]
pub struct Struct {
    /// Fields in declaration order. That order is what `MakeStruct` takes and
    /// what `GetField` indexes; it is not the order in memory, which the backend
    /// decides unless `@repr("C")` fixes it.
    pub fields: Vec<Field>,
    /// Whether the type has reference semantics.
    pub reference: bool,
    /// Whether `@repr("C")` fixes its order in memory.
    pub repr_c: bool,
}

/// A [`Struct`] with its sequences and names as mathematical values.
#[verifier::ext_equal]
pub struct StructView {
    pub fields: Seq<FieldView>,
    pub reference: bool,
    pub repr_c: bool,
}

impl View for Struct {
    type V = StructView;

    open spec fn view(&self) -> StructView {
        StructView {
            fields: views(self.fields@),
            reference: self.reference,
            repr_c: self.repr_c,
        }
    }
}

impl Clone for Struct {
    fn clone(&self) -> (copy: Struct)
        ensures
            copy@ == self@,
    {
        let fields = self.fields.clone();
        assert(views(fields@) =~= views(self.fields@));
        Struct {
            fields,
            reference: self.reference,
            repr_c: self.repr_c,
        }
    }
}

/// One variant of an enum.
#[derive(Debug, PartialEq)]
pub struct Variant {
    pub name: String,
    /// What the variant carries. A tuple payload names its fields by position,
    /// so those names are `0`, `1`, and so on.
    pub fields: Vec<Field>,
}

/// A [`Variant`] with its sequences and names as mathematical values.
#[verifier::ext_equal]
pub struct VariantView {
    pub name: Seq<char>,
    pub fields: Seq<FieldView>,
}

impl View for Variant {
    type V = VariantView;

    open spec fn view(&self) -> VariantView {
        VariantView {
            name: self.name@,
            fields: views(self.fields@),
        }
    }
}

impl Clone for Variant {
    fn clone(&self) -> (copy: Variant)
        ensures
            copy@ == self@,
    {
        let fields = self.fields.clone();
        assert(views(fields@) =~= views(self.fields@));
        Variant {
            name: self.name.clone(),
            fields,
        }
    }
}

/// An enum. A variant's index in `variants` is its tag.
#[derive(Debug, PartialEq)]
pub struct Enum {
    pub variants: Vec<Variant>,
}

/// A [`Enum`] with its sequences and names as mathematical values.
#[verifier::ext_equal]
pub struct EnumView {
    pub variants: Seq<VariantView>,
}

impl View for Enum {
    type V = EnumView;

    open spec fn view(&self) -> EnumView {
        EnumView {
            variants: views(self.variants@),
        }
    }
}

impl Clone for Enum {
    fn clone(&self) -> (copy: Enum)
        ensures
            copy@ == self@,
    {
        let variants = self.variants.clone();
        assert(views(variants@) =~= views(self.variants@));
        Enum {
            variants,
        }
    }
}

/// One method an interface requires.
#[derive(Debug, PartialEq)]
pub struct Method {
    pub name: String,
    pub params: Vec<Ty>,
    pub result: Ty,
    /// Whether a call may throw.
    pub throws: bool,
    /// Whether a call produces a task.
    pub asynchronous: bool,
}

/// A [`Method`] with its sequences and names as mathematical values.
#[verifier::ext_equal]
pub struct MethodView {
    pub name: Seq<char>,
    pub params: Seq<TyView>,
    pub result: TyView,
    pub throws: bool,
    pub asynchronous: bool,
}

impl View for Method {
    type V = MethodView;

    open spec fn view(&self) -> MethodView {
        MethodView {
            name: self.name@,
            params: tys(self.params@),
            result: self.result@,
            throws: self.throws,
            asynchronous: self.asynchronous,
        }
    }
}

impl Clone for Method {
    fn clone(&self) -> (copy: Method)
        ensures
            copy@ == self@,
    {
        Method {
            name: self.name.clone(),
            params: clone_tys(&self.params),
            result: self.result.clone(),
            throws: self.throws,
            asynchronous: self.asynchronous,
        }
    }
}

/// One type's implementation of an interface: its method table.
#[derive(Debug, PartialEq)]
pub struct Implementation {
    pub ty: Ty,
    /// The function each of the interface's method slots resolves to, in slot
    /// order. This is the vtable a `CallVirtual` reads at runtime, and what
    /// devirtualization reads at compile time.
    pub methods: Vec<FuncId>,
}

/// A [`Implementation`] with its sequences and names as mathematical values.
#[verifier::ext_equal]
pub struct ImplementationView {
    pub ty: TyView,
    pub methods: Seq<FuncId>,
}

impl View for Implementation {
    type V = ImplementationView;

    open spec fn view(&self) -> ImplementationView {
        ImplementationView {
            ty: self.ty@,
            methods: self.methods@,
        }
    }
}

impl Clone for Implementation {
    fn clone(&self) -> (copy: Implementation)
        ensures
            copy@ == self@,
    {
        Implementation {
            ty: self.ty.clone(),
            methods: clone_funcs(&self.methods),
        }
    }
}

/// An interface. A method's index in `methods` is the slot a `CallVirtual`
/// names.
#[derive(Debug, PartialEq)]
pub struct Interface {
    pub methods: Vec<Method>,
    /// Every type that implements it, which is what devirtualization counts.
    pub implementors: Vec<Implementation>,
}

/// A [`Interface`] with its sequences and names as mathematical values.
#[verifier::ext_equal]
pub struct InterfaceView {
    pub methods: Seq<MethodView>,
    pub implementors: Seq<ImplementationView>,
}

impl View for Interface {
    type V = InterfaceView;

    open spec fn view(&self) -> InterfaceView {
        InterfaceView {
            methods: views(self.methods@),
            implementors: views(self.implementors@),
        }
    }
}

impl Clone for Interface {
    fn clone(&self) -> (copy: Interface)
        ensures
            copy@ == self@,
    {
        let methods = self.methods.clone();
        assert(views(methods@) =~= views(self.methods@));
        let implementors = self.implementors.clone();
        assert(views(implementors@) =~= views(self.implementors@));
        Interface {
            methods,
            implementors,
        }
    }
}

/// What a declared type holds.
#[derive(Debug, PartialEq)]
pub enum Shape {
    Struct(Struct),
    Enum(Enum),
    Interface(Interface),
}

/// A [`Shape`] with its sequences and names as mathematical values.
pub enum ShapeView {
    Struct(StructView),
    Enum(EnumView),
    Interface(InterfaceView),
}

impl View for Shape {
    type V = ShapeView;

    open spec fn view(&self) -> ShapeView {
        match *self {
            Shape::Struct(held) => ShapeView::Struct(held@),
            Shape::Enum(held) => ShapeView::Enum(held@),
            Shape::Interface(held) => ShapeView::Interface(held@),
        }
    }
}

impl Clone for Shape {
    fn clone(&self) -> (copy: Shape)
        ensures
            copy@ == self@,
    {
        match self {
            Shape::Struct(held) => Shape::Struct(held.clone()),
            Shape::Enum(held) => Shape::Enum(held.clone()),
            Shape::Interface(held) => Shape::Interface(held.clone()),
        }
    }
}

/// A declared type: what it is called, what it takes, and what it holds.
#[derive(Debug, PartialEq)]
pub struct Nominal {
    /// How the type is written in the program, for diagnostics and for the
    /// names monomorphization gives its instances.
    pub name: String,
    /// Its type parameters, in declaration order. Empty once monomorphization
    /// has substituted them.
    pub type_params: Vec<String>,
    pub shape: Shape,
    pub span: Span,
}

/// A [`Nominal`] with its sequences and names as mathematical values.
#[verifier::ext_equal]
pub struct NominalView {
    pub name: Seq<char>,
    pub type_params: Seq<Seq<char>>,
    pub shape: ShapeView,
    pub span: Span,
}

impl View for Nominal {
    type V = NominalView;

    open spec fn view(&self) -> NominalView {
        NominalView {
            name: self.name@,
            type_params: names(self.type_params@),
            shape: self.shape@,
            span: self.span,
        }
    }
}

impl Clone for Nominal {
    fn clone(&self) -> (copy: Nominal)
        ensures
            copy@ == self@,
    {
        Nominal {
            name: self.name.clone(),
            type_params: clone_names(&self.type_params),
            shape: self.shape.clone(),
            span: self.span,
        }
    }
}

/// A run of instructions with one entry and one exit.
#[derive(Debug, PartialEq)]
pub struct Block {
    /// The values this block receives from whoever jumped to it. These take the
    /// place of phi nodes: a value that differs between paths becomes a
    /// parameter, and each jump passes what it holds.
    pub params: Vec<Value>,
    pub insts: Vec<Inst>,
    /// Absent only while the block is being built. A finished function has one
    /// on every block.
    pub term: Option<Terminator>,
}

/// A [`Block`] with its sequences and names as mathematical values.
#[verifier::ext_equal]
pub struct BlockView {
    pub params: Seq<Value>,
    pub insts: Seq<InstView>,
    pub term: Option<TerminatorView>,
}

impl View for Block {
    type V = BlockView;

    open spec fn view(&self) -> BlockView {
        BlockView {
            params: self.params@,
            insts: views(self.insts@),
            term: maybe_term(self.term),
        }
    }
}

impl Clone for Block {
    fn clone(&self) -> (copy: Block)
        ensures
            copy@ == self@,
    {
        let insts = self.insts.clone();
        assert(views(insts@) =~= views(self.insts@));
        Block {
            params: clone_values(&self.params),
            insts,
            term: clone_maybe_term(&self.term),
        }
    }
}

/// What a function's attributes ask of the inliner.
#[derive(Debug, Clone, Copy, PartialEq, Eq, Structural)]
pub enum Inline {
    Default,
    Always,
    Never,
}

/// One function, in SSA.
#[derive(Debug, PartialEq)]
pub struct Function {
    /// A name unique in the program: the module it came from and the path to it
    /// inside that module.
    pub name: String,
    /// Its type parameters, in declaration order. Empty once monomorphization
    /// has substituted them.
    pub type_params: Vec<String>,
    /// The types of the entry block's parameters, in order. A method takes
    /// `self` as the first of them.
    pub params: Vec<Ty>,
    /// What `Return` gives back. [`Ty::Unit`] where the function writes no
    /// result.
    pub result: Ty,
    /// Whether calling it produces a `Task<T>` rather than running it. The pass
    /// that turns one into a state machine reads this.
    pub asynchronous: bool,
    /// What its attributes ask of the inliner.
    pub inline: Inline,
    /// The symbol it is linked to, where another language defines it.
    pub external: Option<String>,
    /// Whether it is called by the C convention.
    pub c_abi: bool,
    /// Where it was written, for diagnostics and backtraces.
    pub span: Span,
    /// The block control enters at. Its parameters are the function's.
    pub entry: BlockId,
    /// Its blocks, indexed by [`BlockId`].
    pub blocks: Vec<Block>,
    /// The type of every value, indexed by [`Value`].
    pub values: Vec<Ty>,
    /// The type of every stack slot, indexed by [`SlotId`].
    pub slots: Vec<Ty>,
}

/// A [`Function`] with its sequences and names as mathematical values.
#[verifier::ext_equal]
pub struct FunctionView {
    pub name: Seq<char>,
    pub type_params: Seq<Seq<char>>,
    pub params: Seq<TyView>,
    pub result: TyView,
    pub asynchronous: bool,
    pub inline: Inline,
    pub external: Option<Seq<char>>,
    pub c_abi: bool,
    pub span: Span,
    pub entry: BlockId,
    pub blocks: Seq<BlockView>,
    pub values: Seq<TyView>,
    pub slots: Seq<TyView>,
}

impl View for Function {
    type V = FunctionView;

    open spec fn view(&self) -> FunctionView {
        FunctionView {
            name: self.name@,
            type_params: names(self.type_params@),
            params: tys(self.params@),
            result: self.result@,
            asynchronous: self.asynchronous,
            inline: self.inline,
            external: maybe_name(self.external),
            c_abi: self.c_abi,
            span: self.span,
            entry: self.entry,
            blocks: views(self.blocks@),
            values: tys(self.values@),
            slots: tys(self.slots@),
        }
    }
}

impl Clone for Function {
    fn clone(&self) -> (copy: Function)
        ensures
            copy@ == self@,
    {
        let blocks = self.blocks.clone();
        assert(views(blocks@) =~= views(self.blocks@));
        Function {
            name: self.name.clone(),
            type_params: clone_names(&self.type_params),
            params: clone_tys(&self.params),
            result: self.result.clone(),
            asynchronous: self.asynchronous,
            inline: self.inline,
            external: clone_maybe_name(&self.external),
            c_abi: self.c_abi,
            span: self.span,
            entry: self.entry,
            blocks,
            values: clone_tys(&self.values),
            slots: clone_tys(&self.slots),
        }
    }
}

/// What each registered name stands for.
pub open spec fn name_views(held: Seq<(String, TypeId)>) -> Seq<(Seq<char>, TypeId)> {
    Seq::new(held.len(), |i: int| (held[i].0@, held[i].1))
}

/// What each finalizer is for.
pub open spec fn finalizer_views(held: Seq<(Ty, FuncId)>) -> Seq<(TyView, FuncId)> {
    Seq::new(held.len(), |i: int| (held[i].0@, held[i].1))
}

/// Every type and function one compilation reaches.
#[derive(Debug, PartialEq)]
pub struct Program {
    /// Its declared types, indexed by [`TypeId`].
    pub types: Vec<Nominal>,
    /// Its functions, indexed by [`FuncId`].
    pub functions: Vec<Function>,
    /// The function the program starts at. Absent for an artifact that is not
    /// an executable.
    pub entry: Option<FuncId>,
    /// Module initializers, in the order they must run before `main`.
    pub initializers: Vec<FuncId>,
    /// What each type was registered as, so a pass can find one it did not
    /// build.
    pub by_name: Vec<(String, TypeId)>,
    /// What runs when a value of a type is given up.
    pub finalizers: Vec<(Ty, FuncId)>,
}

/// A [`Program`] with its sequences and names as mathematical values.
#[verifier::ext_equal]
pub struct ProgramView {
    pub types: Seq<NominalView>,
    pub functions: Seq<FunctionView>,
    pub entry: Option<FuncId>,
    pub initializers: Seq<FuncId>,
    pub by_name: Seq<(Seq<char>, TypeId)>,
    pub finalizers: Seq<(TyView, FuncId)>,
}

impl View for Program {
    type V = ProgramView;

    open spec fn view(&self) -> ProgramView {
        ProgramView {
            types: views(self.types@),
            functions: views(self.functions@),
            entry: self.entry,
            initializers: self.initializers@,
            by_name: name_views(self.by_name@),
            finalizers: finalizer_views(self.finalizers@),
        }
    }
}

impl Clone for Program {
    fn clone(&self) -> (copy: Program)
        ensures
            copy@ == self@,
    {
        let types = self.types.clone();
        assert(views(types@) =~= views(self.types@));
        let functions = self.functions.clone();
        assert(views(functions@) =~= views(self.functions@));
        Program {
            types,
            functions,
            entry: self.entry,
            initializers: clone_funcs(&self.initializers),
            by_name: clone_name_table(&self.by_name),
            finalizers: clone_finalizers(&self.finalizers),
        }
    }
}

fn clone_funcs(held: &Vec<FuncId>) -> (copy: Vec<FuncId>)
    ensures
        copy@ == held@,
{
    let copied = held.clone();
    assert(copied@ =~= held@);
    copied
}

fn clone_name_table(held: &Vec<(String, TypeId)>) -> (copy: Vec<(String, TypeId)>)
    ensures
        name_views(copy@) == name_views(held@),
{
    let mut copied: Vec<(String, TypeId)> = Vec::new();
    let mut i: usize = 0;
    while i < held.len()
        invariant
            i <= held.len(),
            copied@.len() == i,
            forall|j: int|
                0 <= j < i ==> (#[trigger] copied@[j]).0@ == held@[j].0@ && copied@[j].1
                    == held@[j].1,
        decreases held.len() - i,
    {
        copied.push((held[i].0.clone(), held[i].1));
        i += 1;
    }
    assert(name_views(copied@) =~= name_views(held@));
    copied
}

/// A copy of the finalizers.
pub fn clone_finalizers(held: &Vec<(Ty, FuncId)>) -> (copy: Vec<(Ty, FuncId)>)
    ensures
        finalizer_views(copy@) == finalizer_views(held@),
{
    let mut copied: Vec<(Ty, FuncId)> = Vec::new();
    let mut i: usize = 0;
    while i < held.len()
        invariant
            i <= held.len(),
            copied@.len() == i,
            forall|j: int|
                0 <= j < i ==> (#[trigger] copied@[j]).0@ == held@[j].0@ && copied@[j].1
                    == held@[j].1,
        decreases held.len() - i,
    {
        copied.push((held[i].0.clone(), held[i].1));
        i += 1;
    }
    assert(finalizer_views(copied@) =~= finalizer_views(held@));
    copied
}

impl BlockView {
    /// A block with nothing in it yet.
    pub open spec fn empty() -> BlockView {
        BlockView { params: Seq::empty(), insts: Seq::empty(), term: None }
    }

    /// Whether the block names only the first `values`, `slots` and `blocks`.
    pub open spec fn within(self, values: nat, slots: nat, blocks: nat) -> bool {
        &&& values_within(self.params, values)
        &&& forall|i: int|
            0 <= i < self.insts.len() ==> (#[trigger] self.insts[i]).within(values, slots)
        &&& self.term matches Some(term) ==> term.within(values, blocks)
    }
}

impl Block {
    fn new() -> (block: Block)
        ensures
            block@ == BlockView::empty(),
    {
        let block = Block { params: Vec::new(), insts: Vec::new(), term: None };
        assert(block@ =~= BlockView::empty());
        block
    }
}

impl FunctionView {
    /// A function with one empty entry block that takes the parameters.
    pub open spec fn fresh(
        name: Seq<char>,
        params: Seq<TyView>,
        result: TyView,
        span: Span,
    ) -> FunctionView {
        FunctionView {
            name,
            type_params: Seq::empty(),
            params,
            result,
            asynchronous: false,
            inline: Inline::Default,
            external: None,
            c_abi: false,
            span,
            entry: BlockId(0),
            blocks: seq![
                BlockView {
                    params: Seq::new(params.len(), |i: int| Value(i as u32)),
                    insts: Seq::empty(),
                    term: None,
                },
            ],
            values: params,
            slots: Seq::empty(),
        }
    }

    /// Whether everything the function names is its own.
    pub open spec fn well_formed(self) -> bool {
        &&& self.entry.0 < self.blocks.len()
        &&& self.blocks.len() <= id_limit()
        &&& self.values.len() <= id_limit()
        &&& self.slots.len() <= id_limit()
        &&& forall|i: int|
            0 <= i < self.blocks.len() ==> (#[trigger] self.blocks[i]).within(
                self.values.len(),
                self.slots.len(),
                self.blocks.len(),
            )
    }

    /// Whether every function the instructions name is one of the first
    /// `functions`.
    pub open spec fn calls_within(self, functions: nat) -> bool {
        forall|b: int, i: int|
            0 <= b < self.blocks.len() && 0 <= i < self.blocks[b].insts.len() ==> ((
            #[trigger] self.blocks[b].insts[i]).kind.func() matches Some(func) ==> func.0
                < functions)
    }

    /// Whether every block has been ended.
    pub open spec fn finished(self) -> bool {
        forall|i: int| 0 <= i < self.blocks.len() ==> (#[trigger] self.blocks[i]).term is Some
    }

    /// What the next value will be called.
    pub open spec fn next_value(self) -> Value {
        Value(self.values.len() as u32)
    }

    /// What the next block will be called.
    pub open spec fn next_block(self) -> BlockId {
        BlockId(self.blocks.len() as u32)
    }

    /// What the next slot will be called.
    pub open spec fn next_slot(self) -> SlotId {
        SlotId(self.slots.len() as u32)
    }

    /// The function with one more value.
    pub open spec fn add_value(self, ty: TyView) -> FunctionView {
        FunctionView { values: self.values.push(ty), ..self }
    }

    /// The function with one more block.
    pub open spec fn add_block(self) -> FunctionView {
        FunctionView { blocks: self.blocks.push(BlockView::empty()), ..self }
    }

    /// The function with one more slot.
    pub open spec fn add_slot(self, ty: TyView) -> FunctionView {
        FunctionView { slots: self.slots.push(ty), ..self }
    }

    /// The block called `block`.
    pub open spec fn block(self, block: BlockId) -> BlockView {
        self.blocks[block.0 as int]
    }

    /// The function with another block in the place of one of its own.
    pub open spec fn with_block(self, block: BlockId, held: BlockView) -> FunctionView {
        FunctionView { blocks: self.blocks.update(block.0 as int, held), ..self }
    }

    /// The function with one more value, which `block` receives.
    pub open spec fn add_block_param(self, block: BlockId, ty: TyView) -> FunctionView {
        let held = self.block(block);
        self.add_value(ty).with_block(
            block,
            BlockView { params: held.params.push(self.next_value()), ..held },
        )
    }

    /// The function with one more instruction at the end of `block`.
    pub open spec fn push_inst(self, block: BlockId, inst: InstView) -> FunctionView {
        let held = self.block(block);
        self.with_block(block, BlockView { insts: held.insts.push(inst), ..held })
    }

    /// The function with `block` ended by `term`.
    pub open spec fn end_block(self, block: BlockId, term: TerminatorView) -> FunctionView {
        self.with_block(block, BlockView { term: Some(term), ..self.block(block) })
    }

    /// The type of `value`.
    pub open spec fn type_of(self, value: Value) -> TyView {
        self.values[value.0 as int]
    }
}

/// A function with nothing in its entry block is well formed.
pub proof fn fresh_is_well_formed(
    name: Seq<char>,
    params: Seq<TyView>,
    result: TyView,
    span: Span,
)
    requires
        params.len() <= id_limit(),
    ensures
        FunctionView::fresh(name, params, result, span).well_formed(),
{
}

proof fn block_replaced(blocks: Seq<Block>, at: int, held: Block)
    requires
        0 <= at < blocks.len(),
    ensures
        views(blocks.update(at, held)) == views(blocks).update(at, held@),
{
    assert(views(blocks.update(at, held)) =~= views(blocks).update(at, held@));
}

impl Function {
    /// A function with one empty entry block, whose parameters are `params`.
    #[must_use]
    pub fn new(name: String, params: Vec<Ty>, result: Ty, span: Span) -> (function: Function)
        requires
            params@.len() <= id_limit(),
        ensures
            function@ == FunctionView::fresh(name@, tys(params@), result@, span),
    {
        let mut entry = Block::new();
        let values = clone_tys(&params);
        let mut i: usize = 0;
        while i < params.len()
            invariant
                i <= params.len() <= id_limit(),
                entry@.insts == Seq::<InstView>::empty(),
                entry@.term is None,
                entry.params@ == Seq::new(i as nat, |j: int| Value(j as u32)),
            decreases params.len() - i,
        {
            entry.params.push(Value(i as u32));
            assert(entry.params@ =~= Seq::new((i + 1) as nat, |j: int| Value(j as u32)));
            i += 1;
        }
        let mut blocks: Vec<Block> = Vec::new();
        blocks.push(entry);
        let function = Function {
            name,
            type_params: Vec::new(),
            params,
            result,
            asynchronous: false,
            inline: Inline::Default,
            external: None,
            c_abi: false,
            span,
            entry: BlockId(0),
            blocks,
            values,
            slots: Vec::new(),
        };
        let ghost expected = FunctionView::fresh(name@, tys(params@), result@, span);
        assert(function@.type_params =~= expected.type_params);
        assert(function@.slots =~= expected.slots);
        assert(function@.blocks[0].params =~= expected.blocks[0].params);
        assert(function@.blocks =~= expected.blocks);
        function
    }

    /// Introduces a value of type `ty`. The instruction or block parameter
    /// that produces it is what makes it defined; this only reserves it.
    pub fn add_value(&mut self, ty: Ty) -> (value: Value)
        requires
            old(self)@.values.len() < id_limit(),
        ensures
            value == old(self)@.next_value(),
            final(self)@ == old(self)@.add_value(ty@),
    {
        let value = Value(self.values.len() as u32);
        self.values.push(ty);
        assert(self@.values =~= old(self)@.values.push(ty@));
        value
    }

    /// The type of a value of this function.
    #[must_use]
    pub fn type_of(&self, value: Value) -> (ty: &Ty)
        requires
            value.0 < self@.values.len(),
        ensures
            ty@ == self@.type_of(value),
    {
        &self.values[value.0 as usize]
    }

    /// Adds an empty block with no parameters.
    pub fn add_block(&mut self) -> (block: BlockId)
        requires
            old(self)@.blocks.len() < id_limit(),
        ensures
            block == old(self)@.next_block(),
            final(self)@ == old(self)@.add_block(),
    {
        let block = BlockId(self.blocks.len() as u32);
        self.blocks.push(Block::new());
        assert(self@.blocks =~= old(self)@.blocks.push(BlockView::empty()));
        block
    }

    /// Adds a parameter of type `ty` to `block`, and returns the value the
    /// block receives.
    pub fn add_block_param(&mut self, block: BlockId, ty: Ty) -> (value: Value)
        requires
            old(self)@.values.len() < id_limit(),
            block.0 < old(self)@.blocks.len(),
        ensures
            value == old(self)@.next_value(),
            final(self)@ == old(self)@.add_block_param(block, ty@),
    {
        let value = self.add_value(ty);
        self.block_mut(block).params.push(value);
        value
    }

    /// Adds a stack slot holding a `ty`.
    pub fn add_slot(&mut self, ty: Ty) -> (slot: SlotId)
        requires
            old(self)@.slots.len() < id_limit(),
        ensures
            slot == old(self)@.next_slot(),
            final(self)@ == old(self)@.add_slot(ty@),
    {
        let slot = SlotId(self.slots.len() as u32);
        self.slots.push(ty);
        assert(self@.slots =~= old(self)@.slots.push(ty@));
        slot
    }

    /// The type of a stack slot of this function.
    #[must_use]
    pub fn slot_type(&self, slot: SlotId) -> (ty: &Ty)
        requires
            slot.0 < self@.slots.len(),
        ensures
            ty@ == self@.slots[slot.0 as int],
    {
        &self.slots[slot.0 as usize]
    }

    /// A block of this function.
    #[must_use]
    pub fn block(&self, block: BlockId) -> (held: &Block)
        requires
            block.0 < self@.blocks.len(),
        ensures
            held@ == self@.block(block),
    {
        &self.blocks[block.0 as usize]
    }

    /// A block of this function, to change.
    pub fn block_mut(&mut self, block: BlockId) -> (held: &mut Block)
        requires
            block.0 < old(self)@.blocks.len(),
        ensures
            held@ == old(self)@.block(block),
            final(self)@ == old(self)@.with_block(block, final(held)@),
    {
        let ghost before = self.blocks@;
        let held = &mut self.blocks[block.0 as usize];
        proof {
            block_replaced(before, block.0 as int, *final(held));
        }
        held
    }

    /// Adds an instruction at the end of `block`.
    pub fn push_inst(&mut self, block: BlockId, inst: Inst)
        requires
            block.0 < old(self)@.blocks.len(),
        ensures
            final(self)@ == old(self)@.push_inst(block, inst@),
    {
        let held = self.block_mut(block);
        let ghost before = held.insts@;
        held.insts.push(inst);
        assert(views(held.insts@) =~= views(before).push(inst@));
    }

    /// Ends `block`, whatever ended it before.
    pub fn end_block(&mut self, block: BlockId, term: Terminator)
        requires
            block.0 < old(self)@.blocks.len(),
        ensures
            final(self)@ == old(self)@.end_block(block, term@),
    {
        self.block_mut(block).term = Some(term);
    }

    /// Every block, in the order they were added. The entry block is first.
    pub fn blocks(&self) -> (blocks: Vec<(BlockId, &Block)>)
        requires
            self@.blocks.len() <= id_limit(),
        ensures
            blocks@.len() == self@.blocks.len(),
            forall|i: int|
                0 <= i < blocks@.len() ==> (#[trigger] blocks@[i]).0 == BlockId(i as u32)
                    && blocks@[i].1@ == self@.blocks[i],
    {
        let mut blocks: Vec<(BlockId, &Block)> = Vec::new();
        let mut i: usize = 0;
        while i < self.blocks.len()
            invariant
                i <= self.blocks.len() <= id_limit(),
                blocks@.len() == i,
                forall|j: int|
                    0 <= j < i ==> (#[trigger] blocks@[j]).0 == BlockId(j as u32) && blocks@[j].1@
                        == self@.blocks[j],
            decreases self.blocks.len() - i,
        {
            blocks.push((BlockId(i as u32), &self.blocks[i]));
            i += 1;
        }
        blocks
    }

    /// Every block, to change.
    pub fn blocks_mut(&mut self) -> (blocks: &mut Vec<Block>)
        ensures
            views(blocks@) == old(self)@.blocks,
            final(self)@ == (FunctionView { blocks: views(final(blocks)@), ..old(self)@ }),
    {
        &mut self.blocks
    }

    /// Whether the function is a template rather than code: something a call
    /// instantiates rather than jumps to.
    #[must_use]
    pub fn is_template(&self) -> (template: bool)
        ensures
            template == (self@.type_params.len() != 0),
    {
        self.type_params.len() != 0
    }

    /// Replaces `params` with `args` in the type of every value and slot.
    pub fn substitute_values(&mut self, params: &Vec<String>, args: &Vec<Ty>)
        ensures
            final(self)@ == (FunctionView {
                values: substitute_all(old(self)@.values, names(params@), tys(args@)),
                slots: substitute_all(old(self)@.slots, names(params@), tys(args@)),
                ..old(self)@
            }),
    {
        self.values = substitute_each(&self.values, params, args);
        self.slots = substitute_each(&self.slots, params, args);
    }

    /// Every value with its type, in order.
    pub fn values(&self) -> (values: Vec<(Value, &Ty)>)
        requires
            self@.values.len() <= id_limit(),
        ensures
            values@.len() == self@.values.len(),
            forall|i: int|
                0 <= i < values@.len() ==> (#[trigger] values@[i]).0 == Value(i as u32)
                    && values@[i].1@ == self@.values[i],
    {
        let mut values: Vec<(Value, &Ty)> = Vec::new();
        let mut i: usize = 0;
        while i < self.values.len()
            invariant
                i <= self.values.len() <= id_limit(),
                values@.len() == i,
                forall|j: int|
                    0 <= j < i ==> (#[trigger] values@[j]).0 == Value(j as u32) && values@[j].1@
                        == self@.values[j],
            decreases self.values.len() - i,
        {
            values.push((Value(i as u32), &self.values[i]));
            i += 1;
        }
        values
    }

    /// The type of every stack slot.
    #[must_use]
    pub fn slots(&self) -> (slots: &Vec<Ty>)
        ensures
            tys(slots@) == self@.slots,
    {
        &self.slots
    }
}

impl NominalView {
    /// Whether every method table of the type, where it is an interface, names
    /// only the first `functions`.
    pub open spec fn tables_within(self, functions: nat) -> bool {
        self.shape matches ShapeView::Interface(interface) ==> forall|i: int, slot: int|
            0 <= i < interface.implementors.len() && 0 <= slot
                < interface.implementors[i].methods.len()
                ==> (#[trigger] interface.implementors[i].methods[slot]).0 < functions
    }
}

impl ProgramView {
    /// A program with nothing in it.
    pub open spec fn empty() -> ProgramView {
        ProgramView {
            types: Seq::empty(),
            functions: Seq::empty(),
            entry: None,
            initializers: Seq::empty(),
            by_name: Seq::empty(),
            finalizers: Seq::empty(),
        }
    }

    /// What the next type will be called.
    pub open spec fn next_type(self) -> TypeId {
        TypeId(self.types.len() as u32)
    }

    /// What the next function will be called.
    pub open spec fn next_function(self) -> FuncId {
        FuncId(self.functions.len() as u32)
    }

    /// The program with one more type, registered under its name.
    pub open spec fn add_type(self, nominal: NominalView) -> ProgramView {
        ProgramView {
            types: self.types.push(nominal),
            by_name: self.by_name.push((nominal.name, self.next_type())),
            ..self
        }
    }

    /// The program with one more function.
    pub open spec fn add_function(self, function: FunctionView) -> ProgramView {
        ProgramView { functions: self.functions.push(function), ..self }
    }

    /// The type called `id`.
    pub open spec fn nominal(self, id: TypeId) -> NominalView {
        self.types[id.0 as int]
    }

    /// The function called `id`.
    pub open spec fn function(self, id: FuncId) -> FunctionView {
        self.functions[id.0 as int]
    }

    /// The program with another function in the place of one of its own.
    pub open spec fn with_function(self, id: FuncId, function: FunctionView) -> ProgramView {
        ProgramView { functions: self.functions.update(id.0 as int, function), ..self }
    }

    /// The program with another type in the place of one of its own.
    pub open spec fn with_nominal(self, id: TypeId, nominal: NominalView) -> ProgramView {
        ProgramView { types: self.types.update(id.0 as int, nominal), ..self }
    }

    /// What was last registered as `name`.
    pub open spec fn find_type(self, name: Seq<char>) -> Option<TypeId> {
        last_registered(self.by_name, name)
    }

    /// What runs when a value of type `ty` is given up.
    pub open spec fn finalizer(self, ty: TyView) -> Option<FuncId> {
        finalizer_among(self.finalizers, ty)
    }

    /// The program in which `func` runs when a value of type `ty` is given
    /// up, whatever ran before.
    pub open spec fn set_finalizer(self, ty: TyView, func: FuncId) -> ProgramView {
        ProgramView { finalizers: finalizers_with(self.finalizers, ty, func), ..self }
    }

    /// Whether every function is well formed.
    pub open spec fn functions_well_formed(self) -> bool {
        &&& self.functions.len() <= id_limit()
        &&& forall|i: int|
            0 <= i < self.functions.len() ==> (#[trigger] self.functions[i]).well_formed()
    }

    /// Whether every call names a function of the program.
    pub open spec fn calls_well_formed(self) -> bool {
        forall|i: int|
            0 <= i < self.functions.len() ==> (#[trigger] self.functions[i]).calls_within(
                self.functions.len(),
            )
    }

    /// Whether every method table names only functions of the program.
    pub open spec fn tables_well_formed(self) -> bool {
        &&& self.types.len() <= id_limit()
        &&& forall|i: int|
            0 <= i < self.types.len() ==> (#[trigger] self.types[i]).tables_within(
                self.functions.len(),
            )
    }
}

/// What the last entry for `name` gives.
pub open spec fn last_registered(held: Seq<(Seq<char>, TypeId)>, name: Seq<char>) -> Option<TypeId>
    decreases held.len(),
{
    if held.len() == 0 {
        None
    } else if held.last().0 == name {
        Some(held.last().1)
    } else {
        last_registered(held.drop_last(), name)
    }
}

/// What the first entry for `ty` gives.
pub open spec fn finalizer_among(held: Seq<(TyView, FuncId)>, ty: TyView) -> Option<FuncId>
    decreases held.len(),
{
    if held.len() == 0 {
        None
    } else if held[0].0 == ty {
        Some(held[0].1)
    } else {
        finalizer_among(held.skip(1), ty)
    }
}

/// The entries with that for `ty` giving `func`: in its place where there is
/// one, at the end where there is none.
pub open spec fn finalizers_with(
    held: Seq<(TyView, FuncId)>,
    ty: TyView,
    func: FuncId,
) -> Seq<(TyView, FuncId)>
    decreases held.len(),
{
    if held.len() == 0 {
        seq![(ty, func)]
    } else if held[0].0 == ty {
        seq![(ty, func)] + held.skip(1)
    } else {
        seq![held[0]] + finalizers_with(held.skip(1), ty, func)
    }
}

/// What was set is what is found, and nothing else changed.
pub proof fn finalizer_set_is_found(
    held: Seq<(TyView, FuncId)>,
    ty: TyView,
    func: FuncId,
    asked: TyView,
)
    ensures
        finalizer_among(finalizers_with(held, ty, func), asked) == if asked == ty {
            Some(func)
        } else {
            finalizer_among(held, asked)
        },
    decreases held.len(),
{
    let after = finalizers_with(held, ty, func);
    if held.len() == 0 {
        assert(after.skip(1) =~= Seq::empty());
        assert(finalizer_among(after.skip(1), asked) is None);
    } else if held[0].0 == ty {
        assert(after.skip(1) =~= held.skip(1));
    } else {
        finalizer_set_is_found(held.skip(1), ty, func, asked);
        assert(after.skip(1) =~= finalizers_with(held.skip(1), ty, func));
    }
}

/// The type last added under a name is the one its name finds, and no other
/// name finds anything else than before.
pub proof fn added_type_is_found(program: ProgramView, nominal: NominalView, asked: Seq<char>)
    ensures
        program.add_type(nominal).find_type(asked) == if asked == nominal.name {
            Some(program.next_type())
        } else {
            program.find_type(asked)
        },
{
    let after = program.add_type(nominal);
    assert(after.by_name.drop_last() =~= program.by_name);
}

proof fn function_replaced(functions: Seq<Function>, at: int, held: Function)
    requires
        0 <= at < functions.len(),
    ensures
        views(functions.update(at, held)) == views(functions).update(at, held@),
{
    assert(views(functions.update(at, held)) =~= views(functions).update(at, held@));
}

proof fn type_replaced(types: Seq<Nominal>, at: int, held: Nominal)
    requires
        0 <= at < types.len(),
    ensures
        views(types.update(at, held)) == views(types).update(at, held@),
{
    assert(views(types.update(at, held)) =~= views(types).update(at, held@));
}

impl Default for Program {
    fn default() -> (program: Program)
        ensures
            program@ == ProgramView::empty(),
    {
        let program = Program {
            types: Vec::new(),
            functions: Vec::new(),
            entry: None,
            initializers: Vec::new(),
            by_name: Vec::new(),
            finalizers: Vec::new(),
        };
        assert(program@ =~= ProgramView::empty());
        program
    }
}

impl Program {
    /// Adds a type, and registers it under its name.
    pub fn add_type(&mut self, nominal: Nominal) -> (id: TypeId)
        requires
            old(self)@.types.len() < id_limit(),
        ensures
            id == old(self)@.next_type(),
            final(self)@ == old(self)@.add_type(nominal@),
    {
        let id = TypeId(self.types.len() as u32);
        self.by_name.push((nominal.name.clone(), id));
        self.types.push(nominal);
        assert(self@.by_name =~= old(self)@.by_name.push((nominal@.name, id)));
        assert(self@.types =~= old(self)@.types.push(nominal@));
        id
    }

    /// A type of this program.
    #[must_use]
    pub fn nominal(&self, id: TypeId) -> (nominal: &Nominal)
        requires
            id.0 < self@.types.len(),
        ensures
            nominal@ == self@.nominal(id),
    {
        &self.types[id.0 as usize]
    }

    /// A type of this program, to change.
    pub fn nominal_mut(&mut self, id: TypeId) -> (nominal: &mut Nominal)
        requires
            id.0 < old(self)@.types.len(),
        ensures
            nominal@ == old(self)@.nominal(id),
            final(self)@ == old(self)@.with_nominal(id, final(nominal)@),
    {
        let ghost before = self.types@;
        let held = &mut self.types[id.0 as usize];
        proof {
            type_replaced(before, id.0 as int, *final(held));
        }
        held
    }

    /// The type registered under `name`, if there is one.
    #[must_use]
    pub fn find_type(&self, name: &str) -> (found: Option<TypeId>)
        ensures
            found == self@.find_type(name@),
    {
        let wanted = name.to_owned();
        let mut found: Option<TypeId> = None;
        let mut i: usize = 0;
        while i < self.by_name.len()
            invariant
                i <= self.by_name.len(),
                wanted@ == name@,
                found == last_registered(name_views(self.by_name@).take(i as int), name@),
            decreases self.by_name.len() - i,
        {
            proof {
                let next = name_views(self.by_name@).take(i + 1);
                assert(next.drop_last() =~= name_views(self.by_name@).take(i as int));
            }
            if self.by_name[i].0 == wanted {
                found = Some(self.by_name[i].1);
            }
            i += 1;
        }
        assert(name_views(self.by_name@).take(i as int) =~= self@.by_name);
        found
    }

    /// Adds a function.
    pub fn add_function(&mut self, function: Function) -> (id: FuncId)
        requires
            old(self)@.functions.len() < id_limit(),
        ensures
            id == old(self)@.next_function(),
            final(self)@ == old(self)@.add_function(function@),
    {
        let id = FuncId(self.functions.len() as u32);
        self.functions.push(function);
        assert(self@.functions =~= old(self)@.functions.push(function@));
        id
    }

    /// A function of this program.
    #[must_use]
    pub fn function(&self, id: FuncId) -> (function: &Function)
        requires
            id.0 < self@.functions.len(),
        ensures
            function@ == self@.function(id),
    {
        &self.functions[id.0 as usize]
    }

    /// A function of this program, to change.
    pub fn function_mut(&mut self, id: FuncId) -> (function: &mut Function)
        requires
            id.0 < old(self)@.functions.len(),
        ensures
            function@ == old(self)@.function(id),
            final(self)@ == old(self)@.with_function(id, final(function)@),
    {
        let ghost before = self.functions@;
        let held = &mut self.functions[id.0 as usize];
        proof {
            function_replaced(before, id.0 as int, *final(held));
        }
        held
    }

    /// Every function, in the order they were added.
    pub fn functions(&self) -> (functions: Vec<(FuncId, &Function)>)
        requires
            self@.functions.len() <= id_limit(),
        ensures
            functions@.len() == self@.functions.len(),
            forall|i: int|
                0 <= i < functions@.len() ==> (#[trigger] functions@[i]).0 == FuncId(i as u32)
                    && functions@[i].1@ == self@.functions[i],
    {
        let mut functions: Vec<(FuncId, &Function)> = Vec::new();
        let mut i: usize = 0;
        while i < self.functions.len()
            invariant
                i <= self.functions.len() <= id_limit(),
                functions@.len() == i,
                forall|j: int|
                    0 <= j < i ==> (#[trigger] functions@[j]).0 == FuncId(j as u32)
                        && functions@[j].1@ == self@.functions[j],
            decreases self.functions.len() - i,
        {
            functions.push((FuncId(i as u32), &self.functions[i]));
            i += 1;
        }
        functions
    }

    /// Every type, in the order they were added.
    pub fn types(&self) -> (types: Vec<(TypeId, &Nominal)>)
        requires
            self@.types.len() <= id_limit(),
        ensures
            types@.len() == self@.types.len(),
            forall|i: int|
                0 <= i < types@.len() ==> (#[trigger] types@[i]).0 == TypeId(i as u32)
                    && types@[i].1@ == self@.types[i],
    {
        let mut types: Vec<(TypeId, &Nominal)> = Vec::new();
        let mut i: usize = 0;
        while i < self.types.len()
            invariant
                i <= self.types.len() <= id_limit(),
                types@.len() == i,
                forall|j: int|
                    0 <= j < i ==> (#[trigger] types@[j]).0 == TypeId(j as u32) && types@[j].1@
                        == self@.types[j],
            decreases self.types.len() - i,
        {
            types.push((TypeId(i as u32), &self.types[i]));
            i += 1;
        }
        types
    }

    /// Makes `func` what runs when a value of type `ty` is given up.
    pub fn set_finalizer(&mut self, ty: Ty, func: FuncId)
        ensures
            final(self)@ == old(self)@.set_finalizer(ty@, func),
    {
        let ghost held = finalizer_views(self.finalizers@);
        let mut i: usize = 0;
        proof {
            assert(held.skip(0) =~= held);
            assert(held.take(0) + finalizers_with(held, ty@, func) =~= finalizers_with(
                held,
                ty@,
                func,
            ));
        }
        while i < self.finalizers.len()
            invariant
                i <= self.finalizers.len(),
                *self == *old(self),
                held == finalizer_views(self.finalizers@),
                finalizers_with(held, ty@, func) == held.take(i as int) + finalizers_with(
                    held.skip(i as int),
                    ty@,
                    func,
                ),
            decreases self.finalizers.len() - i,
        {
            if self.finalizers[i].0 == ty {
                self.finalizers.set(i, (ty, func));
                proof {
                    let rest = held.skip(i as int);
                    assert(rest[0].0 == ty@);
                    assert(self@.finalizers =~= held.take(i as int) + (seq![(ty@, func)]
                        + rest.skip(1)));
                }
                return;
            }
            proof {
                let rest = held.skip(i as int);
                assert(rest[0] == held[i as int]);
                assert(rest.skip(1) =~= held.skip(i + 1));
                assert(held.take(i as int) + (seq![held[i as int]] + finalizers_with(
                    held.skip(i + 1),
                    ty@,
                    func,
                )) =~= held.take(i + 1) + finalizers_with(held.skip(i + 1), ty@, func));
            }
            i += 1;
        }
        assert(held.skip(i as int) =~= Seq::empty());
        self.finalizers.push((ty, func));
        assert(self@.finalizers =~= held.take(i as int) + seq![(ty@, func)]);
    }

    /// What runs when a value of type `ty` is given up.
    #[must_use]
    pub fn finalizer(&self, ty: &Ty) -> (found: Option<FuncId>)
        ensures
            found == self@.finalizer(ty@),
    {
        let ghost held = self@.finalizers;
        let mut i: usize = 0;
        assert(held.skip(0) =~= held);
        while i < self.finalizers.len()
            invariant
                i <= self.finalizers.len(),
                held == self@.finalizers,
                finalizer_among(held, ty@) == finalizer_among(held.skip(i as int), ty@),
            decreases self.finalizers.len() - i,
        {
            assert(held.skip(i as int)[0] == held[i as int]);
            assert(held.skip(i as int).skip(1) =~= held.skip(i + 1));
            if self.finalizers[i].0 == *ty {
                return Some(self.finalizers[i].1);
            }
            i += 1;
        }
        None
    }

    /// Every finalizer with the type it is for.
    #[must_use]
    pub fn finalizers(&self) -> (finalizers: &Vec<(Ty, FuncId)>)
        ensures
            finalizer_views(finalizers@) == self@.finalizers,
    {
        &self.finalizers
    }

    /// Puts other finalizers in the place of all there were.
    pub fn replace_finalizers(&mut self, finalizers: Vec<(Ty, FuncId)>)
        ensures
            final(self)@ == (ProgramView {
                finalizers: finalizer_views(finalizers@),
                ..old(self)@
            }),
    {
        self.finalizers = finalizers;
    }
}

/// A block that names only some values, slots and blocks names only those of
/// any more.
pub proof fn block_within_grows(
    block: BlockView,
    values: nat,
    slots: nat,
    blocks: nat,
    more_values: nat,
    more_slots: nat,
    more_blocks: nat,
)
    requires
        block.within(values, slots, blocks),
        values <= more_values,
        slots <= more_slots,
        blocks <= more_blocks,
    ensures
        block.within(more_values, more_slots, more_blocks),
{
    assert forall|i: int| 0 <= i < block.insts.len() implies (#[trigger] block.insts[i]).within(
        more_values,
        more_slots,
    ) by {
        assert(block.insts[i].within(values, slots));
    }
    if let Some(term) = block.term {
        assert forall|i: int| 0 <= i < term.targets().len() implies (
        #[trigger] term.targets()[i]).within(more_values, more_blocks) by {
            assert(term.targets()[i].within(values, blocks));
        }
    }
}

} // verus!
