//! What lowering a program has found out so far.

use vstd::prelude::*;

use crate::ast::{Block, Item, Stmt, StmtKind};
use crate::ast::Binding;
use crate::inst::MethodId;
use crate::program::{
    id_limit, views, FuncId, Function, FunctionView, Implementation, ImplementationView,
    Interface, InterfaceView, MethodView, Nominal, NominalView, Program, ProgramView, Shape,
    ShapeView,
};
use crate::sema::{
    find_recorded, recorded_at, Decl, DerivedMember, Facts, Graph, ModuleId, Node, Signature,
    Table, Type,
};
use crate::span::{FileId, Span};
use crate::text::{clone_names, names};
use crate::ty::{tys, Ty, TyView, TypeId};

use super::body::given::Bound;
use super::body::kinds::{index_id, index_id_view, same_ty};
use super::body::queries::mapped_records;
use super::body::{
    callee_views, Callee, CalleeView, Constant, FieldDefault, Property, PropertyView,
};
use super::declared::{
    declared_at, declared_at_from, dotted, dotted_view, entry, entry_from, overloads, signature,
    signature_from,
};
use super::types::{convert, converted, find_id, id_of, Declared};
use super::{CompilationMode, Gap, GapView};

verus! {

/// A declared function whose body has not been lowered yet.
pub struct Pending<'a> {
    pub id: FuncId,
    pub module: ModuleId,
    /// What the entry block's parameters bind to, in order.
    pub bindings: Vec<Bound<'a>>,
    /// Whether an exception can escape it.
    pub throws: bool,
    pub body: &'a Block,
}

/// A [`Pending`] with its bindings as a sequence.
pub struct PendingView<'a> {
    pub id: FuncId,
    pub module: ModuleId,
    pub bindings: Seq<Bound<'a>>,
    pub throws: bool,
    pub body: &'a Block,
}

impl<'a> View for Pending<'a> {
    type V = PendingView<'a>;

    open spec fn view(&self) -> PendingView<'a> {
        PendingView {
            id: self.id,
            module: self.module,
            bindings: self.bindings@,
            throws: self.throws,
            body: self.body,
        }
    }
}

/// A member a type derives, waiting for a body.
#[derive(Clone, Copy)]
pub struct Derived<'a> {
    pub id: FuncId,
    pub member: &'a DerivedMember,
}

/// The type `self` takes in a method, and the type parameters that type brings
/// with it.
pub struct Owner {
    pub ty: Ty,
    pub params: Vec<String>,
}

/// An [`Owner`] with its contents as mathematical values.
pub struct OwnerView {
    pub ty: TyView,
    pub params: Seq<Seq<char>>,
}

impl View for Owner {
    type V = OwnerView;

    open spec fn view(&self) -> OwnerView {
        OwnerView { ty: self.ty@, params: names(self.params@) }
    }
}

/// What an optional owner says.
pub open spec fn maybe_owner(owner: Option<Owner>) -> Option<OwnerView> {
    match owner {
        Some(held) => Some(held@),
        None => None,
    }
}

/// A program being lowered.
pub struct Lowering<'a> {
    pub graph: &'a Graph,
    pub table: &'a Table,
    pub facts: &'a Facts,
    pub mode: CompilationMode,
    pub program: Program,
    /// What each declared type is called.
    pub ids: Vec<Declared<'a>>,
    /// The function each declaration was given, by the span of the declaration,
    /// the last declared first. That span is what tells two overloads of one
    /// name apart and what the checker recorded a call as reaching.
    pub functions: Vec<(Span, Callee<'a>)>,
    /// The interface method each bodiless declaration stands for, by its span.
    /// A call reaching one dispatches at runtime.
    pub virtuals: Vec<(Span, MethodId)>,
    /// The default written beside a field, by the type and the field it belongs
    /// to.
    pub defaults: Vec<FieldDefault<'a>>,
    /// The computed members of each type, by the type and the name they are
    /// reached under.
    pub properties: Vec<Property<'a>>,
    /// The bodies waiting to be lowered, once every function has an id for the
    /// calls between them to name.
    pub bodies: Vec<Pending<'a>>,
    /// The members `@derive` wrote, waiting for a body.
    pub derived: Vec<Derived<'a>>,
    /// The `display` of each struct and enum that has one.
    pub displays: Vec<(TypeId, FuncId)>,
    /// The `eq` of each struct and enum that has one.
    pub equals: Vec<(TypeId, FuncId)>,
    /// The `hash` of each struct and enum that has one.
    pub hashes: Vec<(TypeId, FuncId)>,
    /// The declarations an exception can escape, by the span of each.
    pub throwing: Vec<Span>,
    /// Each module-level `const`, the last written first.
    pub constants: Vec<Constant<'a>>,
    pub gaps: Vec<Gap>,
}

/// A [`Lowering`] with everything in it as mathematical values.
pub struct LoweringView<'a> {
    pub graph: &'a Graph,
    pub table: &'a Table,
    pub facts: &'a Facts,
    pub mode: CompilationMode,
    pub program: ProgramView,
    pub ids: Seq<Declared<'a>>,
    pub functions: Seq<(Span, CalleeView<'a>)>,
    pub virtuals: Seq<(Span, MethodId)>,
    pub defaults: Seq<FieldDefault<'a>>,
    pub properties: Seq<PropertyView<'a>>,
    pub bodies: Seq<PendingView<'a>>,
    pub derived: Seq<Derived<'a>>,
    pub displays: Seq<(TypeId, FuncId)>,
    pub equals: Seq<(TypeId, FuncId)>,
    pub hashes: Seq<(TypeId, FuncId)>,
    pub throwing: Seq<Span>,
    pub constants: Seq<Constant<'a>>,
    pub gaps: Seq<GapView>,
}

impl<'a> View for Lowering<'a> {
    type V = LoweringView<'a>;

    open spec fn view(&self) -> LoweringView<'a> {
        LoweringView {
            graph: self.graph,
            table: self.table,
            facts: self.facts,
            mode: self.mode,
            program: self.program@,
            ids: self.ids@,
            functions: callee_views(self.functions@),
            virtuals: self.virtuals@,
            defaults: self.defaults@,
            properties: views(self.properties@),
            bodies: views(self.bodies@),
            derived: self.derived@,
            displays: self.displays@,
            equals: self.equals@,
            hashes: self.hashes@,
            throwing: self.throwing@,
            constants: self.constants@,
            gaps: views(self.gaps@),
        }
    }
}

/// One more item at the end of a list.
pub fn push_view<T: View>(held: &mut Vec<T>, item: T)
    ensures
        views(final(held)@) == views(old(held)@).push(item@),
        final(held)@.len() == old(held)@.len() + 1,
{
    let ghost before = held@;
    held.push(item);
    assert(views(held@) =~= views(before).push(item@));
}

/// One more item at the start of a list.
pub fn put_first<T: View>(held: &mut Vec<T>, item: T)
    ensures
        views(final(held)@) == seq![item@] + views(old(held)@),
{
    let ghost before = held@;
    held.insert(0, item);
    assert(views(held@) =~= seq![item@] + views(before));
}

/// The `const` a statement declares under a name.
pub open spec fn constant_written_view<'a>(module: ModuleId, stmt: Stmt) -> Option<Constant<'a>> {
    match stmt.kind {
        StmtKind::Const { binding: Binding::Name(name), value } => Some(
            Constant { module, name: &name, span: stmt.span, value: &value },
        ),
        _ => None,
    }
}

/// The `const` a statement declares under a name.
pub fn constant_written<'a>(module: ModuleId, stmt: &'a Stmt) -> (found: Option<Constant<'a>>)
    ensures
        found == constant_written_view(module, *stmt),
{
    match &stmt.kind {
        StmtKind::Const { binding: Binding::Name(name), value } => Some(
            Constant { module, name, span: stmt.span, value },
        ),
        _ => None,
    }
}

/// Whether a declaration is of a type.
pub open spec fn is_type_view(decl: Decl) -> bool {
    decl is Struct || decl is Enum || decl is Interface
}

/// Whether a declaration is of a type.
pub fn is_type(decl: &Decl) -> (found: bool)
    ensures
        found == is_type_view(*decl),
{
    matches!(decl, Decl::Struct(_) | Decl::Enum(_) | Decl::Interface(_))
}

/// The node of a module.
pub open spec fn node_view<'a>(graph: &'a Graph, module: ModuleId) -> Option<&'a Node> {
    if module.0 < graph.modules@.len() {
        Some(&graph.modules@[module.0 as int])
    } else {
        None
    }
}

/// The position of the first implementation for a type, from `from` on.
pub open spec fn implementor_from(
    held: Seq<ImplementationView>,
    ty: TyView,
    from: nat,
) -> Option<nat>
    decreases held.len() - from,
{
    if from >= held.len() {
        None
    } else if held[from as int].ty == ty {
        Some(from)
    } else {
        implementor_from(held, ty, from + 1)
    }
}

fn find_implementor(held: &Vec<Implementation>, ty: &Ty) -> (found: Option<usize>)
    ensures
        match found {
            Some(at) => at < held@.len() && implementor_from(views(held@), ty@, 0) == Some(
                at as nat,
            ),
            None => implementor_from(views(held@), ty@, 0) is None,
        },
{
    let mut i: usize = 0;
    while i < held.len()
        invariant
            i <= held.len(),
            implementor_from(views(held@), ty@, 0) == implementor_from(
                views(held@),
                ty@,
                i as nat,
            ),
        decreases held.len() - i,
    {
        if same_ty(&held[i].ty, ty) {
            return Some(i);
        }
        i += 1;
    }
    None
}

/// A declared type with its own parameters as its arguments.
pub open spec fn generic_over_view(id: TypeId, params: Seq<Seq<char>>) -> TyView {
    TyView::Named { id, args: parameters_view(params) }
}

/// Type parameters as types.
pub open spec fn parameters_view(params: Seq<Seq<char>>) -> Seq<TyView> {
    Seq::new(params.len(), |i: int| TyView::Parameter(params[i]))
}

/// Type parameters as types.
pub fn parameters(params: &Vec<String>) -> (types: Vec<Ty>)
    ensures
        tys(types@) == parameters_view(names(params@)),
{
    let mut types: Vec<Ty> = Vec::new();
    let mut i: usize = 0;
    while i < params.len()
        invariant
            i <= params.len(),
            types@.len() == i,
            forall|k: int|
                0 <= k < i ==> (#[trigger] types@[k])@ == TyView::Parameter(params@[k]@),
        decreases params.len() - i,
    {
        types.push(Ty::Parameter(params[i].clone()));
        i += 1;
    }
    assert(tys(types@) =~= parameters_view(names(params@)));
    types
}

/// A declared type with its own parameters as its arguments.
pub fn generic_over(id: TypeId, params: &Vec<String>) -> (ty: Ty)
    ensures
        ty@ == generic_over_view(id, names(params@)),
{
    Ty::Named { id, args: parameters(params) }
}

impl<'a> LoweringView<'a> {
    /// One more gap.
    #[verifier::opaque]
    pub open spec fn gap(self, span: Span, what: Seq<char>) -> LoweringView<'a> {
        LoweringView { gaps: self.gaps.push(GapView { span, what }), ..self }
    }

    /// The type a checked type is made of, or `never` with a gap where it is
    /// made of none. Nothing reads a `never`, so the shape survives while the
    /// gap says the program did not lower.
    #[verifier::opaque]
    pub open spec fn convert(self, ty: Type, span: Span) -> (LoweringView<'a>, TyView) {
        match converted(ty, self.ids) {
            Ok(held) => (self, held),
            Err(refused) => (self.gap(span, refused), TyView::Never),
        }
    }

    /// One more type, or a gap where no more can be told apart.
    #[verifier::opaque]
    pub open spec fn add_type(self, nominal: NominalView) -> LoweringView<'a> {
        if self.program.types.len() < id_limit() {
            LoweringView { program: self.program.add_type(nominal), ..self }
        } else {
            self.gap(nominal.span, "a program too large to lower"@)
        }
    }

    /// One more function, or a gap where no more can be told apart.
    #[verifier::opaque]
    pub open spec fn add_function(self, function: FunctionView) -> (LoweringView<'a>, FuncId) {
        if self.program.functions.len() < id_limit() {
            (
                LoweringView { program: self.program.add_function(function), ..self },
                self.program.next_function(),
            )
        } else {
            (self.gap(function.span, "a program too large to lower"@), FuncId(0))
        }
    }

    /// A function in the place of another.
    #[verifier::opaque]
    pub open spec fn put_function(self, id: FuncId, function: FunctionView) -> LoweringView<'a> {
        if id.0 < self.program.functions.len() {
            LoweringView { program: self.program.with_function(id, function), ..self }
        } else {
            self
        }
    }

    /// A type named.
    #[verifier::opaque]
    pub open spec fn name_type(self, module: ModuleId, name: &'a String) -> LoweringView<'a> {
        LoweringView {
            ids: self.ids.push(
                Declared { module, name, id: TypeId(index_id_view(self.ids.len())) },
            ),
            ..self
        }
    }

    /// One more `const`.
    #[verifier::opaque]
    pub open spec fn put_constant(self, held: Constant<'a>) -> LoweringView<'a> {
        LoweringView { constants: seq![held] + self.constants, ..self }
    }

    /// One more declaration that became a function.
    #[verifier::opaque]
    pub open spec fn put_callee(self, span: Span, callee: CalleeView<'a>) -> LoweringView<'a> {
        LoweringView { functions: seq![(span, callee)] + self.functions, ..self }
    }

    /// One more interface method.
    #[verifier::opaque]
    pub open spec fn put_virtual(self, span: Span, method: MethodId) -> LoweringView<'a> {
        LoweringView { virtuals: seq![(span, method)] + self.virtuals, ..self }
    }

    /// One more default beside a field.
    #[verifier::opaque]
    pub open spec fn put_default(self, held: FieldDefault<'a>) -> LoweringView<'a> {
        LoweringView { defaults: seq![held] + self.defaults, ..self }
    }

    /// One more property.
    #[verifier::opaque]
    pub open spec fn put_property(self, held: PropertyView<'a>) -> LoweringView<'a> {
        LoweringView { properties: seq![held] + self.properties, ..self }
    }

    /// One more body to lower.
    #[verifier::opaque]
    pub open spec fn push_body(self, held: PendingView<'a>) -> LoweringView<'a> {
        LoweringView { bodies: self.bodies.push(held), ..self }
    }

    /// One more member to derive.
    #[verifier::opaque]
    pub open spec fn push_derived(self, held: Derived<'a>) -> LoweringView<'a> {
        LoweringView { derived: self.derived.push(held), ..self }
    }

    /// Where the program starts.
    #[verifier::opaque]
    pub open spec fn set_entry(self, id: FuncId) -> LoweringView<'a> {
        LoweringView { program: ProgramView { entry: Some(id), ..self.program }, ..self }
    }

    /// One more initializer.
    #[verifier::opaque]
    pub open spec fn push_initializer(self, id: FuncId) -> LoweringView<'a> {
        LoweringView {
            program: ProgramView {
                initializers: self.program.initializers.push(id),
                ..self.program
            },
            ..self
        }
    }

    /// What runs when a value of a type is given up.
    #[verifier::opaque]
    pub open spec fn set_finalizer(self, ty: TyView, id: FuncId) -> LoweringView<'a> {
        LoweringView { program: self.program.set_finalizer(ty, id), ..self }
    }

    /// The interface a type is, where it is one.
    #[verifier::opaque]
    pub open spec fn interface_of(self, id: TypeId) -> Option<InterfaceView> {
        if id.0 < self.program.types.len() {
            match self.program.nominal(id).shape {
                ShapeView::Interface(held) => Some(held),
                _ => None,
            }
        } else {
            None
        }
    }

    /// An interface in the place of another.
    #[verifier::opaque]
    pub open spec fn put_interface(self, id: TypeId, held: InterfaceView) -> LoweringView<'a> {
        if id.0 < self.program.types.len() {
            LoweringView {
                program: self.program.with_nominal(
                    id,
                    NominalView {
                        shape: ShapeView::Interface(held),
                        ..self.program.nominal(id)
                    },
                ),
                ..self
            }
        } else {
            self
        }
    }

    /// A method of an interface marked as one that may throw.
    #[verifier::opaque]
    pub open spec fn mark_throwing(self, id: TypeId, slot: nat) -> LoweringView<'a> {
        match self.interface_of(id) {
            Some(held) => if slot < held.methods.len() {
                self.put_interface(
                    id,
                    InterfaceView {
                        methods: held.methods.update(
                            slot as int,
                            MethodView { throws: true, ..held.methods[slot as int] },
                        ),
                        ..held
                    },
                )
            } else {
                self
            },
            None => self,
        }
    }

    /// One more type that implements an interface.
    #[verifier::opaque]
    pub open spec fn push_implementor(
        self,
        id: TypeId,
        implementation: ImplementationView,
    ) -> LoweringView<'a> {
        match self.interface_of(id) {
            Some(held) => self.put_interface(
                id,
                InterfaceView { implementors: held.implementors.push(implementation), ..held },
            ),
            None => self,
        }
    }

    /// What a slot of an implementation resolves to.
    #[verifier::opaque]
    pub open spec fn set_slot(self, id: TypeId, ty: TyView, slot: nat, callee: FuncId) -> LoweringView<
        'a,
    > {
        match self.interface_of(id) {
            Some(held) => match implementor_from(held.implementors, ty, 0) {
                Some(at) => if slot < held.implementors[at as int].methods.len() {
                    self.put_interface(
                        id,
                        InterfaceView {
                            implementors: held.implementors.update(
                                at as int,
                                ImplementationView {
                                    methods: held.implementors[at as int].methods.update(
                                        slot as int,
                                        callee,
                                    ),
                                    ..held.implementors[at as int]
                                },
                            ),
                            ..held
                        },
                    )
                } else {
                    self
                },
                None => self,
            },
            None => self,
        }
    }

    /// What the next type will be called.
    #[verifier::opaque]
    pub open spec fn next_type(self) -> TypeId {
        TypeId(index_id_view(self.program.types.len()))
    }

    /// How a name written in a module reads in the whole program.
    #[verifier::opaque]
    pub open spec fn qualify(self, module: ModuleId, name: Seq<char>) -> Seq<char> {
        match node_view(self.graph, module) {
            Some(node) => dotted_view(node.path@, name),
            None => name,
        }
    }

    /// Where a type is declared.
    #[verifier::opaque]
    pub open spec fn declaration_span(self, module: ModuleId, name: Seq<char>) -> Span {
        match node_view(self.graph, module) {
            Some(node) => match declared_at_from(node.ast.items@, name, 0) {
                Some(span) => span,
                None => node.ast.span,
            },
            None => Span { file: FileId(0), start: 0, end: 0 },
        }
    }

    /// The items of a module.
    #[verifier::opaque]
    pub open spec fn items_of(self, module: ModuleId) -> Seq<Item> {
        match node_view(self.graph, module) {
            Some(node) => node.ast.items@,
            None => Seq::empty(),
        }
    }

    /// The node of a module.
    #[verifier::opaque]
    pub open spec fn node(self, module: ModuleId) -> Option<&'a Node> {
        node_view(self.graph, module)
    }

    /// The signature the table built for a declaration.
    #[verifier::opaque]
    pub open spec fn signature(self, span: Span) -> Option<Signature> {
        signature_from(self.table.entries@, span, 0)
    }

    /// What a type declared in a module is called.
    #[verifier::opaque]
    pub open spec fn id_of(self, module: ModuleId, name: Seq<char>) -> Option<TypeId> {
        id_of(self.ids, module, name)
    }

    /// The type parameters of a declared type.
    #[verifier::opaque]
    pub open spec fn type_params_of(self, id: TypeId) -> Seq<Seq<char>> {
        if id.0 < self.program.types.len() {
            self.program.nominal(id).type_params
        } else {
            Seq::empty()
        }
    }

    /// The type `self` takes in a method of `owner`, and the type parameters
    /// that type brings with it. A method an extension block adds is a method of
    /// the type the block extends.
    #[verifier::opaque]
    pub open spec fn self_type(self, module: ModuleId, owner: Seq<char>) -> Option<OwnerView> {
        match self.id_of(module, owner) {
            Some(id) => Some(
                OwnerView {
                    ty: generic_over_view(id, self.type_params_of(id)),
                    params: self.type_params_of(id),
                },
            ),
            None => match entry_from(self.table.entries@, module, owner, 0) {
                Some(found) => match found.decl {
                    Decl::Extension { type_params, target, methods } => match converted(
                        target,
                        self.ids,
                    ) {
                        Ok(ty) => Some(OwnerView { ty, params: names(type_params@) }),
                        Err(_) => None,
                    },
                    _ => None,
                },
                None => None,
            },
        }
    }

    /// The declared type a checked type names.
    #[verifier::opaque]
    pub open spec fn claimed(self, ty: Type) -> Option<TypeId> {
        match converted(ty, self.ids) {
            Ok(held) => match held {
                TyView::Named { id, args } => Some(id),
                _ => None,
            },
            Err(_) => None,
        }
    }

    /// Whether an exception can escape a declaration.
    #[verifier::opaque]
    pub open spec fn is_throwing(self, span: Span) -> bool {
        self.throwing.contains(span)
    }

    /// What a declaration became.
    #[verifier::opaque]
    pub open spec fn callee_of(self, span: Span) -> Option<CalleeView<'a>> {
        recorded_at(self.functions, span)
    }
}

impl<'a> Lowering<'a> {
    /// Reports something that is not handled.
    pub fn gap(&mut self, span: Span, what: &str)
        ensures
            final(self)@ == old(self)@.gap(span, what@),
    {
        proof {
            reveal(LoweringView::gap);
        }
        push_view(&mut self.gaps, Gap { span, what: what.to_owned() });
    }

    /// The type a checked type is made of, or `never` with a gap where it is
    /// made of none.
    pub fn convert(&mut self, ty: &Type, span: Span) -> (produced: Ty)
        ensures
            (final(self)@, produced@) == old(self)@.convert(*ty, span),
    {
        proof {
            reveal(LoweringView::convert);
        }
        match convert(ty, &self.ids) {
            Ok(held) => held,
            Err(refused) => {
                self.gap(span, refused);
                Ty::Never
            },
        }
    }

    /// Adds a type.
    pub fn add_type(&mut self, nominal: Nominal)
        ensures
            final(self)@ == old(self)@.add_type(nominal@),
    {
        proof {
            reveal(LoweringView::add_type);
        }
        if (self.program.types.len() as u64) < 0x1_0000_0000 {
            let _ = self.program.add_type(nominal);
        } else {
            self.gap(nominal.span, "a program too large to lower");
        }
    }

    /// Adds a function.
    pub fn add_function(&mut self, function: Function) -> (produced: FuncId)
        ensures
            (final(self)@, produced) == old(self)@.add_function(function@),
    {
        proof {
            reveal(LoweringView::add_function);
        }
        if (self.program.functions.len() as u64) < 0x1_0000_0000 {
            self.program.add_function(function)
        } else {
            self.gap(function.span, "a program too large to lower");
            FuncId(0)
        }
    }

    /// Puts a function in the place of another.
    pub fn put_function(&mut self, id: FuncId, function: Function)
        ensures
            final(self)@ == old(self)@.put_function(id, function@),
    {
        proof {
            reveal(LoweringView::put_function);
        }
        if (id.0 as usize) < self.program.functions.len() {
            *self.program.function_mut(id) = function;
        }
    }

    /// Names a type.
    pub fn name_type(&mut self, module: ModuleId, name: &'a String)
        ensures
            final(self)@ == old(self)@.name_type(module, name),
    {
        proof {
            reveal(LoweringView::name_type);
        }
        let id = TypeId(index_id(self.ids.len()));
        self.ids.push(Declared { module, name, id });
    }

    /// One more `const`.
    pub fn put_constant(&mut self, held: Constant<'a>)
        ensures
            final(self)@ == old(self)@.put_constant(held),
    {
        proof {
            reveal(LoweringView::put_constant);
        }
        let ghost before = self.constants@;
        self.constants.insert(0, held);
        assert(self.constants@ =~= seq![held] + before);
    }

    /// One more declaration that became a function.
    pub fn put_callee(&mut self, span: Span, callee: Callee<'a>)
        ensures
            final(self)@ == old(self)@.put_callee(span, callee@),
    {
        proof {
            reveal(LoweringView::put_callee);
        }
        let ghost before = self.functions@;
        self.functions.insert(0, (span, callee));
        assert(callee_views(self.functions@) =~= seq![(span, callee@)] + callee_views(before));
    }

    /// One more interface method.
    pub fn put_virtual(&mut self, span: Span, method: MethodId)
        ensures
            final(self)@ == old(self)@.put_virtual(span, method),
    {
        proof {
            reveal(LoweringView::put_virtual);
        }
        let ghost before = self.virtuals@;
        self.virtuals.insert(0, (span, method));
        assert(self.virtuals@ =~= seq![(span, method)] + before);
    }

    /// One more default beside a field.
    pub fn put_default(&mut self, held: FieldDefault<'a>)
        ensures
            final(self)@ == old(self)@.put_default(held),
    {
        proof {
            reveal(LoweringView::put_default);
        }
        let ghost before = self.defaults@;
        self.defaults.insert(0, held);
        assert(self.defaults@ =~= seq![held] + before);
    }

    /// One more property.
    pub fn put_property(&mut self, held: Property<'a>)
        ensures
            final(self)@ == old(self)@.put_property(held@),
    {
        proof {
            reveal(LoweringView::put_property);
        }
        put_first(&mut self.properties, held);
    }

    /// One more body to lower.
    pub fn push_body(&mut self, held: Pending<'a>)
        ensures
            final(self)@ == old(self)@.push_body(held@),
    {
        proof {
            reveal(LoweringView::push_body);
        }
        push_view(&mut self.bodies, held);
    }

    /// One more member to derive.
    pub fn push_derived(&mut self, held: Derived<'a>)
        ensures
            final(self)@ == old(self)@.push_derived(held),
    {
        proof {
            reveal(LoweringView::push_derived);
        }
        self.derived.push(held);
    }

    /// Says where the program starts.
    pub fn set_entry(&mut self, id: FuncId)
        ensures
            final(self)@ == old(self)@.set_entry(id),
    {
        proof {
            reveal(LoweringView::set_entry);
        }
        self.program.entry = Some(id);
    }

    /// One more initializer.
    pub fn push_initializer(&mut self, id: FuncId)
        ensures
            final(self)@ == old(self)@.push_initializer(id),
    {
        proof {
            reveal(LoweringView::push_initializer);
        }
        self.program.initializers.push(id);
    }

    /// Says what runs when a value of a type is given up.
    pub fn set_finalizer(&mut self, ty: Ty, id: FuncId)
        ensures
            final(self)@ == old(self)@.set_finalizer(ty@, id),
    {
        proof {
            reveal(LoweringView::set_finalizer);
        }
        self.program.set_finalizer(ty, id);
    }

    /// The interface a type is, where it is one.
    pub fn interface_of(&self, id: TypeId) -> (found: Option<Interface>)
        ensures
            match found {
                Some(held) => self@.interface_of(id) == Some(held@),
                None => self@.interface_of(id) is None,
            },
    {
        proof {
            reveal(LoweringView::interface_of);
        }
        if (id.0 as usize) < self.program.types.len() {
            match &self.program.nominal(id).shape {
                Shape::Interface(held) => Some(held.clone()),
                _ => None,
            }
        } else {
            None
        }
    }

    fn put_interface(&mut self, id: TypeId, held: Interface)
        ensures
            final(self)@ == old(self)@.put_interface(id, held@),
    {
        proof {
            reveal(LoweringView::put_interface);
        }
        if (id.0 as usize) < self.program.types.len() {
            let nominal = self.program.nominal_mut(id);
            nominal.shape = Shape::Interface(held);
        }
    }

    /// Marks a method of an interface as one that may throw.
    pub fn mark_throwing(&mut self, id: TypeId, slot: usize)
        ensures
            final(self)@ == old(self)@.mark_throwing(id, slot as nat),
    {
        proof {
            reveal(LoweringView::mark_throwing);
        }
        match self.interface_of(id) {
            Some(held) => {
                if slot < held.methods.len() {
                    let mut methods = held.methods;
                    let ghost before = methods@;
                    methods[slot].throws = true;
                    assert(views(methods@) =~= views(before).update(
                        slot as int,
                        MethodView { throws: true, ..views(before)[slot as int] },
                    ));
                    self.put_interface(
                        id,
                        Interface { methods, implementors: held.implementors },
                    );
                }
            },
            None => {},
        }
    }

    /// One more type that implements an interface.
    pub fn push_implementor(&mut self, id: TypeId, implementation: Implementation)
        ensures
            final(self)@ == old(self)@.push_implementor(id, implementation@),
    {
        proof {
            reveal(LoweringView::push_implementor);
        }
        match self.interface_of(id) {
            Some(held) => {
                let mut implementors = held.implementors;
                push_view(&mut implementors, implementation);
                self.put_interface(id, Interface { methods: held.methods, implementors });
            },
            None => {},
        }
    }

    /// Says what a slot of an implementation resolves to.
    pub fn set_slot(&mut self, id: TypeId, ty: &Ty, slot: usize, callee: FuncId)
        ensures
            final(self)@ == old(self)@.set_slot(id, ty@, slot as nat, callee),
    {
        proof {
            reveal(LoweringView::set_slot);
        }
        match self.interface_of(id) {
            Some(held) => match find_implementor(&held.implementors, ty) {
                Some(at) => {
                    if slot < held.implementors[at].methods.len() {
                        let mut implementors = held.implementors;
                        let ghost before = implementors@;
                        implementors[at].methods[slot] = callee;
                        assert(views(implementors@) =~= views(before).update(
                            at as int,
                            ImplementationView {
                                methods: views(before)[at as int].methods.update(
                                    slot as int,
                                    callee,
                                ),
                                ..views(before)[at as int]
                            },
                        ));
                        self.put_interface(id, Interface { methods: held.methods, implementors });
                    }
                },
                None => {},
            },
            None => {},
        }
    }

    /// What the next type will be called.
    pub fn next_type(&self) -> (id: TypeId)
        ensures
            id == self@.next_type(),
    {
        proof {
            reveal(LoweringView::next_type);
        }
        TypeId(index_id(self.program.types.len()))
    }

    /// How a name written in a module reads in the whole program.
    pub fn qualify(&self, module: ModuleId, name: &str) -> (whole: String)
        ensures
            whole@ == self@.qualify(module, name@),
    {
        proof {
            reveal(LoweringView::qualify);
            reveal(LoweringView::node);
        }
        match self.node(module) {
            Some(node) => dotted(node.path.as_str(), name),
            None => name.to_owned(),
        }
    }

    /// The node of a module.
    pub fn node(&self, module: ModuleId) -> (found: Option<&'a Node>)
        ensures
            found == self@.node(module),
    {
        proof {
            reveal(LoweringView::node);
        }
        if (module.0 as usize) < self.graph.modules.len() {
            Some(&self.graph.modules[module.0 as usize])
        } else {
            None
        }
    }

    /// Where a type is declared.
    pub fn declaration_span(&self, module: ModuleId, name: &str) -> (span: Span)
        ensures
            span == self@.declaration_span(module, name@),
    {
        proof {
            reveal(LoweringView::declaration_span);
            reveal(LoweringView::node);
        }
        match self.node(module) {
            Some(node) => match declared_at(&node.ast.items, name) {
                Some(span) => span,
                None => node.ast.span,
            },
            None => Span { file: FileId(0), start: 0, end: 0 },
        }
    }

    /// The signature the table built for a declaration.
    pub fn signature(&self, span: Span) -> (found: Option<&'a Signature>)
        ensures
            match found {
                Some(held) => self@.signature(span) == Some(*held),
                None => self@.signature(span) is None,
            },
    {
        proof {
            reveal(LoweringView::signature);
        }
        signature(&self.table.entries, span)
    }

    /// What a type declared in a module is called.
    pub fn id_of(&self, module: ModuleId, name: &str) -> (id: Option<TypeId>)
        ensures
            id == self@.id_of(module, name@),
    {
        proof {
            reveal(LoweringView::id_of);
        }
        find_id(&self.ids, module, name)
    }

    /// The type parameters of a declared type.
    pub fn type_params_of(&self, id: TypeId) -> (params: Vec<String>)
        ensures
            names(params@) == self@.type_params_of(id),
    {
        proof {
            reveal(LoweringView::type_params_of);
        }
        if (id.0 as usize) < self.program.types.len() {
            clone_names(&self.program.nominal(id).type_params)
        } else {
            let params: Vec<String> = Vec::new();
            assert(names(params@) =~= Seq::empty());
            params
        }
    }

    /// The type `self` takes in a method of `owner`.
    pub fn self_type(&self, module: ModuleId, owner: &str) -> (found: Option<Owner>)
        ensures
            maybe_owner(found) == self@.self_type(module, owner@),
    {
        proof {
            reveal(LoweringView::self_type);
        }
        match self.id_of(module, owner) {
            Some(id) => {
                let params = self.type_params_of(id);
                Some(Owner { ty: generic_over(id, &params), params })
            },
            None => match entry(&self.table.entries, module, owner) {
                Some(found) => match &found.decl {
                    Decl::Extension { type_params, target, .. } => match convert(
                        target,
                        &self.ids,
                    ) {
                        Ok(ty) => Some(Owner { ty, params: clone_names(type_params) }),
                        Err(_) => None,
                    },
                    _ => None,
                },
                None => None,
            },
        }
    }

    /// The declared type a checked type names.
    pub fn claimed(&self, ty: &Type) -> (found: Option<TypeId>)
        ensures
            found == self@.claimed(*ty),
    {
        proof {
            reveal(LoweringView::claimed);
        }
        match convert(ty, &self.ids) {
            Ok(held) => match held {
                Ty::Named { id, .. } => Some(id),
                _ => None,
            },
            Err(_) => None,
        }
    }

    /// Whether an exception can escape a declaration.
    pub fn is_throwing(&self, span: Span) -> (found: bool)
        ensures
            found == self@.is_throwing(span),
    {
        proof {
            reveal(LoweringView::is_throwing);
        }
        let mut i: usize = 0;
        while i < self.throwing.len()
            invariant
                i <= self.throwing.len(),
                forall|k: int| 0 <= k < i ==> self.throwing@[k] != span,
            decreases self.throwing.len() - i,
        {
            if self.throwing[i] == span {
                proof {
                    reveal(LoweringView::is_throwing);
                }
                return true;
            }
            i += 1;
        }
        assert(!self.throwing@.contains(span));
        false
    }

    /// What a declaration became.
    pub fn callee_of(&self, span: Span) -> (found: Option<&Callee<'a>>)
        ensures
            match found {
                Some(held) => self@.callee_of(span) == Some(held@),
                None => self@.callee_of(span) is None,
            },
    {
        proof {
            reveal(LoweringView::callee_of);
            mapped_records(self.functions@, span);
        }
        find_recorded(&self.functions, span)
    }
}

} // verus!
