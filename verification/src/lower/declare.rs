//! Giving everything a program declares an id and a shape.

use vstd::prelude::*;

use crate::ast::{Expr, FunctionItem, Item, Member, PropertyItem, Setter, Stmt};
use crate::inst::{MethodId, one};
use crate::lower::declared::{
    Found, Named, dotted, dotted_view, entry, entry_from, enum_item, enum_item_from, extern_symbol,
    extern_symbol_view, fitting, fitting_view, flat, flat_view, inline_asked, inline_asked_view,
    is_finalizer, is_finalizer_view, is_intrinsic, is_intrinsic_view, last_part, module_at,
    module_at_view, owner_of, owner_of_view, path_of, path_of_view, property_type,
    property_type_from, repr_c, repr_c_view, written_defaults, written_defaults_view,
};
use crate::program::{
    Enum, EnumView, Field, FieldView, FuncId, Function, FunctionView, Implementation,
    ImplementationView, Interface, InterfaceView, Method, MethodView, Nominal, NominalView, Shape,
    ShapeView, Struct, StructView, Variant, VariantView, id_limit, views,
};
use crate::sema::{
    Decl, DerivedMember, Entry, EnumType, InterfaceType, ModuleId, Node, Overloads, ParamType,
    Signature, StructType, Type, VariantType,
};
use crate::span::Span;
use crate::text::{clone_names, maybe_name, names, same_text};
use crate::ty::{Ty, TyView, TypeId, tys};

use super::body::kinds::{
    index_id, index_id_view, named_id, named_id_view, no_tys, optional, same_text_view,
};
use super::body::given::{either, fill, given, no_names};
use super::body::{
    Callee, CalleeView, FieldDefault, Parameter, ParameterView, Property, PropertyView, made_views,
};
use super::shells::{
    adapter, adapter_name, adapter_name_view, adapter_view, after_first, after_first_view,
    all_params, all_params_view, bindings_of, bindings_of_view, default_written,
    default_written_view, dressed, dressed_view, given_back, given_back_view, interface_in,
    interface_in_view, no_fields, no_variants, nothing_bound, numbered, numbered_view, one_type,
    one_type_view, passed_types, passed_types_view, receiver_and, receiver_and_view, receiver_only,
    receiver_only_view, setter_name, setter_name_view, shell, shell_view, slot_throws,
    slot_throws_view, two_types, two_types_view, unresolved, unresolved_view, variant_type,
    variant_type_view,
};
use super::state::{
    Derived, Lowering, LoweringView, Owner, OwnerView, Pending, PendingView, constant_written,
    constant_written_view, generic_over, generic_over_view, is_type, is_type_view, maybe_owner,
    push_view,
};

verus! {

/// No implementors.
pub fn no_implementors() -> (implementors: Vec<Implementation>)
    ensures
        views(implementors@) == Seq::<ImplementationView>::empty(),
{
    let implementors: Vec<Implementation> = Vec::new();
    assert(views(implementors@) =~= Seq::empty());
    implementors
}

/// One more type at the end of a list.
pub fn push_ty(held: &mut Vec<Ty>, item: Ty)
    ensures
        tys(final(held)@) == tys(old(held)@).push(item@),
{
    let ghost before = held@;
    held.push(item);
    assert(tys(held@) =~= tys(before).push(item@));
}

/// Some names, copied.
pub fn names_of(held: &Vec<String>) -> (copy: Vec<String>)
    ensures
        names(copy@) == names(held@),
{
    clone_names(held)
}

/// Some names, copied.
pub fn names_again(held: &Vec<String>) -> (copy: Vec<String>)
    ensures
        names(copy@) == names(held@),
{
    clone_names(held)
}

/// Whether there is an owner.
pub open spec fn has_owner_view(owner: Option<OwnerView>) -> bool {
    owner is Some
}

/// Whether there is an owner.
pub fn has_owner(owner: &Option<Owner>) -> (found: bool)
    ensures
        found == has_owner_view(maybe_owner(*owner)),
{
    owner.is_some()
}

/// The last part of the name of a function.
pub open spec fn last_written_view(function: FunctionItem) -> Seq<char> {
    last_part(function)
}

/// The last part of the name of a function.
pub fn last_written(function: &FunctionItem) -> (name: String)
    ensures
        name@ == last_written_view(*function),
{
    if function.name.len() > 0 {
        function.name[function.name.len() - 1].clone()
    } else {
        let empty = String::new();
        assert(empty@ =~= Seq::empty());
        empty
    }
}

/// What a declared function is before it has a body.
pub open spec fn declared_shell_view<'a>(
    name: Seq<char>,
    owner: Option<OwnerView>,
    signature: Signature,
    function: FunctionItem,
    taken: Seq<ParameterView<'a>>,
    result: TyView,
    external: Option<Seq<char>>,
) -> FunctionView {
    dressed_view(
        shell_view(
            name,
            all_params_view(owner, names(signature.type_params@)),
            passed_types_view(owner, taken),
            result,
            function.span,
            function.body is Some,
        ),
        signature.asynchronous,
        inline_asked_view(function),
        external,
        external is Some && !is_intrinsic_view(function),
    )
}

/// What a declared function is before it has a body.
pub fn declared_shell<'a>(
    name: String,
    owner: &Option<Owner>,
    signature: &Signature,
    function: &FunctionItem,
    taken: &Vec<Parameter<'a>>,
    result: Ty,
    external: Option<String>,
) -> (lowered: Function)
    ensures
        lowered@ == declared_shell_view(
            name@,
            maybe_owner(*owner),
            *signature,
            *function,
            views(taken@),
            result@,
            maybe_name(external),
        ),
{
    let type_params = all_params(owner, &signature.type_params);
    let params = passed_types(owner, taken);
    let held = shell(name, type_params, params, result, function.span, function.body.is_some());
    let c_abi = external.is_some() && !is_intrinsic(function);
    dressed(held, signature.asynchronous, inline_asked(function), external, c_abi)
}

/// The module and the name of a declared type.
pub open spec fn derived_owner_view<'a>(owner: Type) -> Option<(ModuleId, &'a String)> {
    match owner {
        Type::Named { module, name, args } => Some((module, &name)),
        _ => None,
    }
}

/// The module and the name of a declared type.
pub fn derived_owner<'a>(owner: &'a Type) -> (found: Option<(ModuleId, &'a String)>)
    ensures
        found == derived_owner_view(*owner),
{
    match owner {
        Type::Named { module, name, .. } => Some((*module, name)),
        _ => None,
    }
}

/// What fills a slot of an interface.
#[derive(Clone, Copy)]
pub struct Resolved {
    pub id: FuncId,
    pub throws: bool,
}

/// The functions that fill some slots.
pub open spec fn ids_of_view(found: Seq<Resolved>) -> Seq<FuncId> {
    Seq::new(found.len(), |i: int| found[i].id)
}

/// The functions that fill some slots.
pub fn ids_of(found: &Vec<Resolved>) -> (ids: Vec<FuncId>)
    ensures
        ids@ == ids_of_view(found@),
{
    let mut ids: Vec<FuncId> = Vec::new();
    let mut i: usize = 0;
    while i < found.len()
        invariant
            i <= found.len(),
            ids@.len() == i,
            forall|k: int| 0 <= k < i ==> #[trigger] ids@[k] == found@[k].id,
        decreases found.len() - i,
    {
        ids.push(found[i].id);
        i += 1;
    }
    assert(ids@ =~= ids_of_view(found@));
    ids
}

/// The name of a method.
pub open spec fn method_named_view(methods: Seq<MethodView>, index: nat) -> Seq<char> {
    if index < methods.len() {
        methods[index as int].name
    } else {
        Seq::empty()
    }
}

/// The name of a method.
pub fn method_named(methods: &Vec<Method>, index: usize) -> (name: String)
    ensures
        name@ == method_named_view(views(methods@), index as nat),
{
    if index < methods.len() {
        methods[index].name.clone()
    } else {
        let empty = String::new();
        assert(empty@ =~= Seq::empty());
        empty
    }
}

/// What an optional list of methods says.
pub open spec fn maybe_methods(held: Option<Vec<Method>>) -> Option<Seq<MethodView>> {
    match held {
        Some(methods) => Some(views(methods@)),
        None => None,
    }
}

impl<'a> LoweringView<'a> {
    /// The default beside each field of a struct.
    #[verifier::opaque]
    pub open spec fn defaults_of(self, module: ModuleId, name: Seq<char>) -> Seq<Option<&'a Expr>> {
        match self.node(module) {
            Some(node) => written_defaults_view(node.ast.items@, name),
            None => Seq::empty(),
        }
    }

    /// Whether the order of a struct in memory is fixed.
    #[verifier::opaque]
    pub open spec fn repr_c(self, module: ModuleId, name: Seq<char>) -> bool {
        match self.node(module) {
            Some(node) => repr_c_view(node.ast.items@, name),
            None => false,
        }
    }

    /// The declaration of an enum.
    #[verifier::opaque]
    pub open spec fn enum_declared(self, module: ModuleId, name: Seq<char>) -> Option<
        crate::ast::EnumItem,
    > {
        match self.node(module) {
            Some(node) => enum_item_from(node.ast.items@, name, 0),
            None => None,
        }
    }

    /// What a method of a declaration belongs to.
    #[verifier::opaque]
    pub open spec fn receiver_of(self, found: Found<'a>, takes_self: bool) -> Option<OwnerView> {
        match owner_of_view(found) {
            Some(owner) => if takes_self {
                self.self_type(found.module, owner)
            } else {
                None
            },
            None => None,
        }
    }

    /// The type a property is declared at.
    #[verifier::opaque]
    pub open spec fn property_declared(
        self,
        module: ModuleId,
        owner: Seq<char>,
        name: Seq<char>,
    ) -> Option<Type> {
        match entry_from(self.table.entries@, module, owner, 0) {
            Some(found) => match found.decl {
                Decl::Struct(held) => property_type_from(held.properties@, name, 0),
                _ => None,
            },
            None => None,
        }
    }

    /// The type parameters a receiver brings with it.
    #[verifier::opaque]
    pub open spec fn params_brought(self, receiver: TyView) -> Seq<Seq<char>> {
        match receiver {
            TyView::Named { id, args } => self.type_params_of(id),
            _ => Seq::empty(),
        }
    }

    /// The methods of an interface.
    #[verifier::opaque]
    pub open spec fn wanted(self, id: TypeId) -> Option<Seq<MethodView>> {
        match self.interface_of(id) {
            Some(held) => Some(held.methods),
            None => None,
        }
    }

    /// What fills a slot: the one signature of its name that takes what it
    /// takes.
    #[verifier::opaque]
    pub open spec fn resolved_at(self, methods: Seq<Overloads>, wanted: MethodView) -> Option<
        Resolved,
    > {
        match fitting_view(methods, wanted.name, wanted.params.len()) {
            Some(span) => match self.callee_of(span) {
                Some(callee) => Some(Resolved { id: callee.id, throws: callee.throws }),
                None => None,
            },
            None => None,
        }
    }

    /// What fills the first `count` slots, up to the first that nothing fills.
    pub open spec fn resolved_until(
        self,
        methods: Seq<Overloads>,
        wanted: Seq<MethodView>,
        count: nat,
    ) -> Seq<Resolved>
        decreases count,
    {
        if count == 0 {
            Seq::empty()
        } else {
            let earlier = self.resolved_until(methods, wanted, (count - 1) as nat);
            if earlier.len() < count - 1 {
                earlier
            } else {
                match self.resolved_at(methods, wanted[count - 1]) {
                    Some(found) => earlier.push(found),
                    None => earlier,
                }
            }
        }
    }

    /// What fills the slots, up to the first that nothing fills.
    #[verifier::opaque]
    pub open spec fn resolved(self, methods: Seq<Overloads>, wanted: Seq<MethodView>) -> Seq<
        Resolved,
    > {
        self.resolved_until(methods, wanted, wanted.len())
    }

    /// A function that calls another and says whether it threw; a gap where
    /// nothing more can be told apart.
    #[verifier::opaque]
    pub open spec fn virtual_adapter(self, callee: FuncId) -> (LoweringView<'a>, FuncId) {
        if callee.0 < self.program.functions.len() {
            let source = self.program.function(callee);
            if source.params.len() + 2 <= id_limit() {
                self.add_function(
                    adapter_view(
                        source,
                        adapter_name_view(source.name, self.program.functions.len()),
                        callee,
                    ),
                )
            } else {
                (self.gap(source.span, "a function too large to lower"@), callee)
            }
        } else {
            (self, callee)
        }
    }
}

impl<'a> Lowering<'a> {
    fn defaults_of(&self, module: ModuleId, name: &str) -> (defaults: Vec<Option<&'a Expr>>)
        ensures
            defaults@ == self@.defaults_of(module, name@),
    {
        proof {
            reveal(LoweringView::defaults_of);
        }
        match self.node(module) {
            Some(node) => written_defaults(&node.ast.items, name),
            None => Vec::new(),
        }
    }

    fn repr_c(&self, module: ModuleId, name: &str) -> (fixed: bool)
        ensures
            fixed == self@.repr_c(module, name@),
    {
        proof {
            reveal(LoweringView::repr_c);
        }
        match self.node(module) {
            Some(node) => repr_c(&node.ast.items, name),
            None => false,
        }
    }

    fn enum_declared(&self, module: ModuleId, name: &str) -> (found: Option<
        &'a crate::ast::EnumItem,
    >)
        ensures
            match found {
                Some(held) => self@.enum_declared(module, name@) == Some(*held),
                None => self@.enum_declared(module, name@) is None,
            },
    {
        proof {
            reveal(LoweringView::enum_declared);
        }
        match self.node(module) {
            Some(node) => enum_item(&node.ast.items, name),
            None => None,
        }
    }

    fn receiver_of(&self, found: Found<'a>, takes_self: bool) -> (owner: Option<Owner>)
        ensures
            maybe_owner(owner) == self@.receiver_of(found, takes_self),
    {
        proof {
            reveal(LoweringView::receiver_of);
        }
        match owner_of(&found) {
            Some(owner) => if takes_self {
                self.self_type(found.module, owner.as_str())
            } else {
                None
            },
            None => None,
        }
    }

    fn property_declared(&self, module: ModuleId, owner: &str, name: &str) -> (found: Option<
        &'a Type,
    >)
        ensures
            match found {
                Some(held) => self@.property_declared(module, owner@, name@) == Some(*held),
                None => self@.property_declared(module, owner@, name@) is None,
            },
    {
        proof {
            reveal(LoweringView::property_declared);
        }
        match entry(&self.table.entries, module, owner) {
            Some(found) => match &found.decl {
                Decl::Struct(held) => property_type(&held.properties, name),
                _ => None,
            },
            None => None,
        }
    }

    fn params_brought(&self, receiver: &Ty) -> (params: Vec<String>)
        ensures
            names(params@) == self@.params_brought(receiver@),
    {
        proof {
            reveal(LoweringView::params_brought);
        }
        match receiver {
            Ty::Named { id, .. } => self.type_params_of(*id),
            _ => {
                let params: Vec<String> = Vec::new();
                assert(names(params@) =~= Seq::empty());
                params
            },
        }
    }

    fn wanted(&self, id: TypeId) -> (found: Option<Vec<Method>>)
        ensures
            maybe_methods(found) == self@.wanted(id),
    {
        proof {
            reveal(LoweringView::wanted);
        }
        match self.interface_of(id) {
            Some(held) => Some(held.methods),
            None => None,
        }
    }

    fn resolved_at(&self, methods: &Vec<Overloads>, wanted: &Method) -> (found: Option<Resolved>)
        ensures
            found == self@.resolved_at(methods@, wanted@),
    {
        proof {
            reveal(LoweringView::resolved_at);
        }
        match fitting(methods, wanted.name.as_str(), wanted.params.len()) {
            Some(span) => match self.callee_of(span) {
                Some(callee) => Some(Resolved { id: callee.id, throws: callee.throws }),
                None => None,
            },
            None => None,
        }
    }

    fn resolved(&self, methods: &Vec<Overloads>, wanted: &Vec<Method>) -> (found: Vec<Resolved>)
        ensures
            found@ == self@.resolved(methods@, views(wanted@)),
    {
        proof {
            reveal(LoweringView::resolved);
        }
        let mut found: Vec<Resolved> = Vec::new();
        let mut i: usize = 0;
        while i < wanted.len()
            invariant
                i <= wanted.len(),
                found@.len() <= i,
                found@ == self@.resolved_until(methods@, views(wanted@), i as nat),
            decreases wanted.len() - i,
        {
            if found.len() == i {
                match self.resolved_at(methods, &wanted[i]) {
                    Some(held) => {
                        found.push(held);
                    },
                    None => {},
                }
            }
            i += 1;
        }
        found
    }

    /// Adds a function that calls another and says whether it threw.
    pub fn virtual_adapter(&mut self, callee: FuncId) -> (produced: FuncId)
        ensures
            (final(self)@, produced) == old(self)@.virtual_adapter(callee),
    {
        proof {
            reveal(LoweringView::virtual_adapter);
        }
        if (callee.0 as usize) < self.program.functions.len() {
            let source = self.program.function(callee).clone();
            assert(source@.params.len() == source.params@.len());
            if source.params.len() as u64 <= 0xffff_fffe {
                let name = adapter_name(source.name.as_str(), self.program.functions.len());
                let made = adapter(&source, name, callee);
                self.add_function(made)
            } else {
                self.gap(source.span, "a function too large to lower");
                callee
            }
        } else {
            callee
        }
    }
}

impl<'a> LoweringView<'a> {
    /// Records each module-level `const`.
    #[verifier::opaque]
    pub open spec fn collect_constants(self, modules: Seq<Node>, count: nat) -> LoweringView<'a>
        decreases count,
    {
        if count == 0 {
            self
        } else {
            let b = self.collect_constants(modules, (count - 1) as nat);
            let i = (count - 1) as nat;
            let b = b.constants_in(
                module_at_view(i as nat),
                modules[i as int].ast.body.stmts@,
                modules[i as int].ast.body.stmts@.len(),
            );
            b
        }
    }

    /// Records each `const` among some statements.
    #[verifier::opaque]
    pub open spec fn constants_in(
        self,
        module: ModuleId,
        stmts: Seq<Stmt>,
        count: nat,
    ) -> LoweringView<'a>
        decreases count,
    {
        if count == 0 {
            self
        } else {
            let b = self.constants_in(module, stmts, (count - 1) as nat);
            let i = (count - 1) as nat;
            let b = match constant_written_view(module, stmts[i as int]) {
                Some(held) => {
                    let b = b.put_constant(held);
                    b
                },
                None => {
                    b
                },
            };
            b
        }
    }

    /// Gives every declared type an id, so that one may name another.
    #[verifier::opaque]
    pub open spec fn name_types(self, entries: Seq<Entry>, count: nat) -> LoweringView<'a>
        decreases count,
    {
        if count == 0 {
            self
        } else {
            let b = self.name_types(entries, (count - 1) as nat);
            let i = (count - 1) as nat;
            let b = if is_type_view(entries[i as int].decl) {
                let b = b.name_type(entries[i as int].module, &entries[i as int].name);
                b
            } else {
                b
            };
            b
        }
    }

    /// Fills in what each declared type holds, in the order they were given ids.
    #[verifier::opaque]
    pub open spec fn build_types(self, entries: Seq<Entry>, count: nat) -> LoweringView<'a>
        decreases count,
    {
        if count == 0 {
            self
        } else {
            let b = self.build_types(entries, (count - 1) as nat);
            let i = (count - 1) as nat;
            let b = match entries[i as int].decl {
                Decl::Struct(held) => {
                    let b = b.structure(entries[i as int], held);
                    b
                },
                Decl::Enum(held) => {
                    let b = b.enumeration(entries[i as int], held);
                    b
                },
                Decl::Interface(held) => {
                    let b = b.interface(entries[i as int], held);
                    b
                },
                _ => {
                    b
                },
            };
            b
        }
    }

    /// Fills in a struct. A field written with a default may be left out of a
    /// literal, and the default is evaluated where the literal is written.
    #[verifier::opaque]
    pub open spec fn structure(self, entry: Entry, held: StructType) -> LoweringView<'a> {
        let b = self;
        let span = b.declaration_span(entry.module, entry.name@);
        let id = b.next_type();
        let (b, fields) = b.fields(held.fields@, span, held.fields@.len());
        let defaults = b.defaults_of(entry.module, entry.name@);
        let b = b.keep_defaults(id, defaults, defaults.len());
        let name = b.qualify(entry.module, entry.name@);
        let repr_c = b.repr_c(entry.module, entry.name@);
        let type_params = names(held.type_params@);
        let b = b.add_type(
            NominalView {
                name,
                type_params,
                shape: ShapeView::Struct(StructView { fields, reference: held.reference, repr_c }),
                span,
            },
        );
        b
    }

    /// Records each default written beside a field.
    #[verifier::opaque]
    pub open spec fn keep_defaults(
        self,
        id: TypeId,
        defaults: Seq<Option<&'a Expr>>,
        count: nat,
    ) -> LoweringView<'a>
        decreases count,
    {
        if count == 0 {
            self
        } else {
            let b = self.keep_defaults(id, defaults, (count - 1) as nat);
            let i = (count - 1) as nat;
            let b = match defaults[i as int] {
                Some(value) => {
                    let b = b.put_default(
                        FieldDefault { owner: id, field: index_id_view(i as nat), value },
                    );
                    b
                },
                None => {
                    b
                },
            };
            b
        }
    }

    /// Some fields, at the types they are made of.
    #[verifier::opaque]
    pub open spec fn fields(
        self,
        declared: Seq<(String, Type)>,
        span: Span,
        count: nat,
    ) -> (LoweringView<'a>, Seq<FieldView>)
        decreases count,
    {
        if count == 0 {
            (self, Seq::empty())
        } else {
            let (b, fields) = self.fields(declared, span, (count - 1) as nat);
            let i = (count - 1) as nat;
            let (b, ty) = b.convert(declared[i as int].1, span);
            let fields = fields.push(FieldView { name: declared[i as int].0@, ty });
            (b, fields)
        }
    }

    /// Some fields that have no names, which are numbered.
    #[verifier::opaque]
    pub open spec fn numbered_fields(
        self,
        types: Seq<Type>,
        span: Span,
        count: nat,
    ) -> (LoweringView<'a>, Seq<FieldView>)
        decreases count,
    {
        if count == 0 {
            (self, Seq::empty())
        } else {
            let (b, fields) = self.numbered_fields(types, span, (count - 1) as nat);
            let i = (count - 1) as nat;
            let (b, ty) = b.convert(types[i as int], span);
            let fields = fields.push(FieldView { name: numbered_view(i as nat), ty });
            (b, fields)
        }
    }

    /// Fills in an enum. A variant's tag is its position, and the position is the one
    /// it was declared at.
    #[verifier::opaque]
    pub open spec fn enumeration(self, entry: Entry, held: EnumType) -> LoweringView<'a> {
        let b = self;
        let span = b.declaration_span(entry.module, entry.name@);
        let item = b.enum_declared(entry.module, entry.name@);
        let (b, variants) = match item {
            Some(item) => {
                b.variants(item.variants@, held.variants@, span, item.variants@.len())
            },
            None => {
                (b, Seq::empty())
            },
        };
        let name = b.qualify(entry.module, entry.name@);
        let type_params = names(held.type_params@);
        let b = b.add_type(
            NominalView { name, type_params, shape: ShapeView::Enum(EnumView { variants }), span },
        );
        b
    }

    /// The variants of an enum, in the order they are written.
    #[verifier::opaque]
    pub open spec fn variants(
        self,
        order: Seq<String>,
        declared: Seq<(String, VariantType)>,
        span: Span,
        count: nat,
    ) -> (LoweringView<'a>, Seq<VariantView>)
        decreases count,
    {
        if count == 0 {
            (self, Seq::empty())
        } else {
            let (b, variants) = self.variants(order, declared, span, (count - 1) as nat);
            let i = (count - 1) as nat;
            let (b, variants) = match variant_type_view(declared, order[i as int]@) {
                Some(payload) => {
                    let (b, fields) = match payload {
                        VariantType::Unit => {
                            (b, Seq::empty())
                        },
                        VariantType::Tuple(types) => {
                            b.numbered_fields(types@, span, types@.len())
                        },
                        VariantType::Record(named) => {
                            b.fields(named@, span, named@.len())
                        },
                    };
                    let variants = variants.push(VariantView { name: order[i as int]@, fields });
                    (b, variants)
                },
                None => {
                    (b, variants)
                },
            };
            (b, variants)
        }
    }

    /// Fills in an interface. The slot a call names is a method's position here, so
    /// the order has to be one every module agrees on.
    #[verifier::opaque]
    pub open spec fn interface(self, entry: Entry, held: InterfaceType) -> LoweringView<'a> {
        let b = self;
        let span = b.declaration_span(entry.module, entry.name@);
        let id = b.next_type();
        let all = flat_view(held.methods@);
        let (b, methods) = b.methods(id, all, span, all.len());
        let name = b.qualify(entry.module, entry.name@);
        let type_params = names(held.type_params@);
        let b = b.add_type(
            NominalView {
                name,
                type_params,
                shape: ShapeView::Interface(InterfaceView { methods, implementors: Seq::empty() }),
                span,
            },
        );
        b
    }

    /// The methods of an interface.
    #[verifier::opaque]
    pub open spec fn methods(
        self,
        id: TypeId,
        all: Seq<Named<'a>>,
        span: Span,
        count: nat,
    ) -> (LoweringView<'a>, Seq<MethodView>)
        decreases count,
    {
        if count == 0 {
            (self, Seq::empty())
        } else {
            let (b, methods) = self.methods(id, all, span, (count - 1) as nat);
            let i = (count - 1) as nat;
            let signature = all[i as int].signature;
            let (b, params) = b.param_types(signature.params@, span, signature.params@.len());
            let (b, result) = b.convert(signature.result, span);
            let b = b.put_virtual(
                signature.span,
                MethodId { interface: id, slot: index_id_view(i as nat) },
            );
            let methods = methods.push(
                MethodView {
                    name: all[i as int].name@,
                    params,
                    result,
                    throws: false,
                    asynchronous: signature.asynchronous,
                },
            );
            (b, methods)
        }
    }

    /// The types of some parameters.
    #[verifier::opaque]
    pub open spec fn param_types(
        self,
        params: Seq<ParamType>,
        span: Span,
        count: nat,
    ) -> (LoweringView<'a>, Seq<TyView>)
        decreases count,
    {
        if count == 0 {
            (self, Seq::empty())
        } else {
            let (b, types) = self.param_types(params, span, (count - 1) as nat);
            let i = (count - 1) as nat;
            let (b, ty) = b.convert(params[i as int].ty, span);
            let types = types.push(ty);
            (b, types)
        }
    }

    /// Gives every declaration an id and a signature.
    #[verifier::opaque]
    pub open spec fn declare_functions(self, found: Seq<Found<'a>>, count: nat) -> LoweringView<'a>
        decreases count,
    {
        if count == 0 {
            self
        } else {
            let b = self.declare_functions(found, (count - 1) as nat);
            let i = (count - 1) as nat;
            let b = b.declare(found[i as int]);
            b
        }
    }

    /// Gives a declaration an id and a signature. A method takes its receiver as the
    /// first argument, which is what `self` is once the call is written out in full.
    /// Exceptions are absent from signatures, so a function an exception can escape
    /// gives back either what it returned or what it threw.
    #[verifier::opaque]
    pub open spec fn declare(self, found: Found<'a>) -> LoweringView<'a> {
        let b = self;
        let function = found.function;
        let span = function.span;
        match b.signature(span) {
            Some(signature) => {
                let owner = b.receiver_of(found, signature.takes_self);
                let b = if signature.takes_self && !has_owner_view(owner) {
                    let b = b.gap(span, "a method whose receiver has no type"@);
                    b
                } else {
                    b
                };
                let (b, taken) = b.taken(
                    *function,
                    signature.takes_self,
                    signature.params@,
                    span,
                    signature.params@.len(),
                );
                let (b, declared) = b.convert(signature.result, span);
                let throws = b.is_throwing(span);
                let path = path_of_view(found);
                let name = b.qualify(found.module, path);
                let external = extern_symbol_view(*function, b.table.symbols@);
                let lowered = declared_shell_view(
                    name,
                    owner,
                    signature,
                    *function,
                    taken,
                    given_back_view(declared, throws),
                    external,
                );
                let type_params = all_params_view(owner, names(signature.type_params@));
                let (b, id) = b.add_function(lowered);
                let b = b.put_callee(
                    span,
                    CalleeView {
                        id,
                        takes_self: signature.takes_self,
                        params: taken,
                        type_params,
                        throws,
                        asynchronous: signature.asynchronous,
                    },
                );
                let b = if function.exported && same_text_view(path, "main"@) {
                    let b = b.set_entry(id);
                    b
                } else {
                    b
                };
                let b = match function.body {
                    Some(body) => {
                        let b = b.push_body(
                            PendingView {
                                id,
                                module: found.module,
                                bindings: bindings_of_view(
                                    has_owner_view(owner),
                                    *function,
                                    signature,
                                ),
                                throws,
                                body: &body,
                            },
                        );
                        b
                    },
                    None => {
                        b
                    },
                };
                b
            },
            None => b,
        }
    }

    /// The parameters of a declaration, without `self`.
    #[verifier::opaque]
    pub open spec fn taken(
        self,
        function: FunctionItem,
        takes_self: bool,
        params: Seq<ParamType>,
        span: Span,
        count: nat,
    ) -> (LoweringView<'a>, Seq<ParameterView<'a>>)
        decreases count,
    {
        if count == 0 {
            (self, Seq::empty())
        } else {
            let (b, taken) = self.taken(function, takes_self, params, span, (count - 1) as nat);
            let i = (count - 1) as nat;
            let (b, ty) = b.convert(params[i as int].ty, span);
            let taken = taken.push(
                ParameterView {
                    name: &params[i as int].name,
                    ty,
                    variadic: params[i as int].variadic,
                    default: default_written_view(function, takes_self, i as nat),
                },
            );
            (b, taken)
        }
    }

    /// Gives every module with statements outside its declarations a function that
    /// runs them.
    #[verifier::opaque]
    pub open spec fn declare_initializers(self, order: Seq<ModuleId>, count: nat) -> LoweringView<'a>
        decreases count,
    {
        if count == 0 {
            self
        } else {
            let b = self.declare_initializers(order, (count - 1) as nat);
            let i = (count - 1) as nat;
            let b = match b.node(order[i as int]) {
                Some(node) => {
                    let b = b.declare_initializer(order[i as int], *node);
                    b
                },
                None => {
                    b
                },
            };
            b
        }
    }

    /// Gives a module a function that runs its statements, where it has any.
    #[verifier::opaque]
    pub open spec fn declare_initializer(self, module: ModuleId, node: Node) -> LoweringView<'a> {
        let b = self;
        let b = if node.ast.body.stmts@.len() > 0 {
            let name = b.qualify(module, "$init"@);
            let (b, id) = b.add_function(
                shell_view(name, Seq::empty(), Seq::empty(), TyView::Unit, node.ast.span, true),
            );
            let b = b.push_initializer(id);
            let b = b.push_body(
                PendingView {
                    id,
                    module,
                    bindings: Seq::empty(),
                    throws: false,
                    body: &node.ast.body,
                },
            );
            b
        } else {
            b
        };
        b
    }

    /// Gives every finalizer a function of its own.
    #[verifier::opaque]
    pub open spec fn declare_finalizers(self, modules: Seq<Node>, count: nat) -> LoweringView<'a>
        decreases count,
    {
        if count == 0 {
            self
        } else {
            let b = self.declare_finalizers(modules, (count - 1) as nat);
            let i = (count - 1) as nat;
            let b = b.finalizers_in(
                module_at_view(i as nat),
                modules[i as int].ast.items@,
                modules[i as int].ast.items@.len(),
            );
            b
        }
    }

    /// The finalizers among the items of a module.
    #[verifier::opaque]
    pub open spec fn finalizers_in(
        self,
        module: ModuleId,
        items: Seq<Item>,
        count: nat,
    ) -> LoweringView<'a>
        decreases count,
    {
        if count == 0 {
            self
        } else {
            let b = self.finalizers_in(module, items, (count - 1) as nat);
            let i = (count - 1) as nat;
            let b = match items[i as int] {
                Item::Struct(held) => {
                    let b = if held.reference {
                        let b = b.finalizers_of(
                            module,
                            &held.name,
                            held.members@,
                            held.members@.len(),
                        );
                        b
                    } else {
                        b
                    };
                    b
                },
                _ => {
                    b
                },
            };
            b
        }
    }

    /// The finalizers among the members of a struct.
    #[verifier::opaque]
    pub open spec fn finalizers_of(
        self,
        module: ModuleId,
        owner: &'a String,
        members: Seq<Member>,
        count: nat,
    ) -> LoweringView<'a>
        decreases count,
    {
        if count == 0 {
            self
        } else {
            let b = self.finalizers_of(module, owner, members, (count - 1) as nat);
            let i = (count - 1) as nat;
            let b = match members[i as int] {
                Member::Function(function) => {
                    let b = if is_finalizer_view(function) {
                        let b = b.declare_finalizer(module, owner, function);
                        b
                    } else {
                        b
                    };
                    b
                },
                _ => {
                    b
                },
            };
            b
        }
    }

    /// Gives a finalizer a function of its own.
    #[verifier::opaque]
    pub open spec fn declare_finalizer(
        self,
        module: ModuleId,
        owner: &'a String,
        function: FunctionItem,
    ) -> LoweringView<'a> {
        let b = self;
        match b.id_of(module, owner@) {
            Some(id) => {
                let params = b.type_params_of(id);
                let receiver = generic_over_view(id, params);
                let written = last_written_view(function);
                let path = dotted_view(owner@, written);
                let name = b.qualify(module, path);
                let (b, finalizer) = b.add_function(
                    shell_view(
                        name,
                        params,
                        one_type_view(receiver),
                        TyView::Unit,
                        function.span,
                        true,
                    ),
                );
                let b = b.set_finalizer(receiver, finalizer);
                let b = match function.body {
                    Some(body) => {
                        let b = b.push_body(
                            PendingView {
                                id: finalizer,
                                module,
                                bindings: receiver_only_view(),
                                throws: false,
                                body: &body,
                            },
                        );
                        b
                    },
                    None => {
                        b
                    },
                };
                b
            },
            None => b,
        }
    }

    /// Gives every computed member the functions it is read and written through.
    #[verifier::opaque]
    pub open spec fn declare_properties(self, modules: Seq<Node>, count: nat) -> LoweringView<'a>
        decreases count,
    {
        if count == 0 {
            self
        } else {
            let b = self.declare_properties(modules, (count - 1) as nat);
            let i = (count - 1) as nat;
            let b = b.properties_in(
                module_at_view(i as nat),
                modules[i as int].ast.items@,
                modules[i as int].ast.items@.len(),
            );
            b
        }
    }

    /// The computed members among the items of a module.
    #[verifier::opaque]
    pub open spec fn properties_in(
        self,
        module: ModuleId,
        items: Seq<Item>,
        count: nat,
    ) -> LoweringView<'a>
        decreases count,
    {
        if count == 0 {
            self
        } else {
            let b = self.properties_in(module, items, (count - 1) as nat);
            let i = (count - 1) as nat;
            let b = match items[i as int] {
                Item::Struct(held) => {
                    let b = b.properties_of(module, &held.name, held.members@, held.members@.len());
                    b
                },
                _ => {
                    b
                },
            };
            b
        }
    }

    /// The computed members among the members of a struct.
    #[verifier::opaque]
    pub open spec fn properties_of(
        self,
        module: ModuleId,
        owner: &'a String,
        members: Seq<Member>,
        count: nat,
    ) -> LoweringView<'a>
        decreases count,
    {
        if count == 0 {
            self
        } else {
            let b = self.properties_of(module, owner, members, (count - 1) as nat);
            let i = (count - 1) as nat;
            let b = match members[i as int] {
                Member::Property(property) => {
                    let b = b.declare_property(module, owner, property);
                    b
                },
                _ => {
                    b
                },
            };
            b
        }
    }

    /// Gives a computed member the functions it is read and written through. The
    /// table resolved the declared type when it built the struct, so it is read from
    /// there rather than resolved a second time.
    #[verifier::opaque]
    pub open spec fn declare_property(
        self,
        module: ModuleId,
        owner: &'a String,
        property: PropertyItem,
    ) -> LoweringView<'a> {
        let b = self;
        let span = property.span;
        match b.id_of(module, owner@) {
            Some(id) => {
                let params = b.type_params_of(id);
                let receiver = generic_over_view(id, params);
                let path = dotted_view(owner@, property.name@);
                match b.property_declared(module, owner@, property.name@) {
                    Some(declared) => {
                        let (b, ty) = b.convert(declared, span);
                        let name = b.qualify(module, path);
                        let (b, get) = b.add_function(
                            shell_view(name, (params), one_type_view(receiver), ty, span, true),
                        );
                        let b = b.push_body(
                            PendingView {
                                id: get,
                                module,
                                bindings: receiver_only_view(),
                                throws: false,
                                body: &property.get,
                            },
                        );
                        let (b, set) = match property.set {
                            Some(setter) => {
                                let (b, id) = b.declare_setter(
                                    module,
                                    path,
                                    setter,
                                    params,
                                    receiver,
                                    ty,
                                );
                                (b, Some(id))
                            },
                            None => {
                                (b, None)
                            },
                        };
                        let b = b.put_property(
                            PropertyView { owner: id, name: &property.name, ty, get, set },
                        );
                        b
                    },
                    None => b.gap(span, "a property the declaration table does not hold"@),
                }
            },
            None => b.gap(span, "a property whose type the compiler could not find"@),
        }
    }

    /// Gives a computed member the function it is written through.
    #[verifier::opaque]
    pub open spec fn declare_setter(
        self,
        module: ModuleId,
        path: Seq<char>,
        setter: Setter,
        params: Seq<Seq<char>>,
        receiver: TyView,
        ty: TyView,
    ) -> (LoweringView<'a>, FuncId) {
        let b = self;
        let written = setter_name_view(path);
        let name = b.qualify(module, written);
        let (b, id) = b.add_function(
            shell_view(name, params, two_types_view(receiver, ty), TyView::Unit, setter.span, true),
        );
        let b = b.push_body(
            PendingView {
                id,
                module,
                bindings: receiver_and_view(&setter.param),
                throws: false,
                body: &setter.body,
            },
        );
        (b, id)
    }

    /// A derived member has no body written anywhere in the program, so it takes an
    /// id here and a body once every function has one.
    #[verifier::opaque]
    pub open spec fn declare_derived(self, members: Seq<DerivedMember>, count: nat) -> LoweringView<'a>
        decreases count,
    {
        if count == 0 {
            self
        } else {
            let b = self.declare_derived(members, (count - 1) as nat);
            let i = (count - 1) as nat;
            let b = match derived_owner_view(members[i as int].owner) {
                Some(owner) => {
                    let b = b.declare_one(owner.0, owner.1, members[i as int]);
                    b
                },
                None => {
                    b
                },
            };
            b
        }
    }

    /// Gives a derived member an id and a signature.
    #[verifier::opaque]
    pub open spec fn declare_one(
        self,
        module: ModuleId,
        owner: &'a String,
        member: DerivedMember,
    ) -> LoweringView<'a> {
        let b = self;
        let span = member.span;
        match b.signature(span) {
            Some(signature) => {
                let (b, receiver) = b.convert(member.owner, span);
                let type_params = b.params_brought(receiver);
                let (b, taken) = b.plainly_taken(signature.params@, span, signature.params@.len());
                let (b, result) = b.convert(signature.result, span);
                let path = dotted_view(owner@, member.member@);
                let name = b.qualify(module, path);
                let (b, id) = b.add_function(
                    shell_view(
                        name,
                        (type_params),
                        after_first_view(receiver, taken),
                        result,
                        span,
                        true,
                    ),
                );
                let b = b.put_callee(
                    span,
                    CalleeView {
                        id,
                        takes_self: true,
                        params: taken,
                        type_params,
                        throws: false,
                        asynchronous: false,
                    },
                );
                let b = b.push_derived(Derived { id, member: &member });
                b
            },
            None => b,
        }
    }

    /// The parameters of a derived member, which have no defaults.
    #[verifier::opaque]
    pub open spec fn plainly_taken(
        self,
        params: Seq<ParamType>,
        span: Span,
        count: nat,
    ) -> (LoweringView<'a>, Seq<ParameterView<'a>>)
        decreases count,
    {
        if count == 0 {
            (self, Seq::empty())
        } else {
            let (b, taken) = self.plainly_taken(params, span, (count - 1) as nat);
            let i = (count - 1) as nat;
            let (b, ty) = b.convert(params[i as int].ty, span);
            let taken = taken.push(
                ParameterView { name: &params[i as int].name, ty, variadic: false, default: None },
            );
            (b, taken)
        }
    }

    /// Records, for each interface, which types implement it and what each of its
    /// method slots resolves to for that type.
    #[verifier::opaque]
    pub open spec fn build_vtables(self, entries: Seq<Entry>, count: nat) -> LoweringView<'a>
        decreases count,
    {
        if count == 0 {
            self
        } else {
            let b = self.build_vtables(entries, (count - 1) as nat);
            let i = (count - 1) as nat;
            let b = match entries[i as int].decl {
                Decl::Struct(held) => {
                    let b = b.implement_all(
                        entries[i as int],
                        held,
                        held.implements@,
                        held.implements@.len(),
                    );
                    b
                },
                _ => {
                    b
                },
            };
            b
        }
    }

    /// Records each interface a struct claims to implement.
    #[verifier::opaque]
    pub open spec fn implement_all(
        self,
        entry: Entry,
        held: StructType,
        claims: Seq<Type>,
        count: nat,
    ) -> LoweringView<'a>
        decreases count,
    {
        if count == 0 {
            self
        } else {
            let b = self.implement_all(entry, held, claims, (count - 1) as nat);
            let i = (count - 1) as nat;
            let b = match b.id_of(entry.module, entry.name@) {
                Some(id) => {
                    let b = b.implement(entry, held, id, claims[i as int]);
                    b
                },
                None => {
                    b
                },
            };
            b
        }
    }

    /// Records that a type implements an interface, with the function each of the
    /// interface's methods resolves to.
    #[verifier::opaque]
    pub open spec fn implement(
        self,
        entry: Entry,
        held: StructType,
        id: TypeId,
        claim: Type,
    ) -> LoweringView<'a> {
        let b = self;
        let span = b.declaration_span(entry.module, entry.name@);
        match b.claimed(claim) {
            Some(interface) => {
                match b.wanted(interface) {
                    Some(wanted) => {
                        let found = b.resolved(held.methods@, wanted);
                        let b = b.note_throwing(interface, found, found.len());
                        if found.len() < wanted.len() {
                            let missing = method_named_view(wanted, found.len());
                            let what = unresolved_view(entry.name@, missing);
                            b.gap(span, what)
                        } else {
                            let b = b.push_implementor(
                                interface,
                                ImplementationView {
                                    ty: TyView::Named { id, args: Seq::empty() },
                                    methods: ids_of_view(found),
                                },
                            );
                            b
                        }
                    },
                    None => b,
                }
            },
            None => b.gap(span, "an interface the compiler could not find"@),
        }
    }

    /// Marks each slot that something throwing fills.
    #[verifier::opaque]
    pub open spec fn note_throwing(
        self,
        interface: TypeId,
        found: Seq<Resolved>,
        count: nat,
    ) -> LoweringView<'a>
        decreases count,
    {
        if count == 0 {
            self
        } else {
            let b = self.note_throwing(interface, found, (count - 1) as nat);
            let i = (count - 1) as nat;
            let b = if found[i as int].throws {
                let b = b.mark_throwing(interface, i as nat);
                b
            } else {
                b
            };
            b
        }
    }

    /// Gives what fills a slot that may throw a form that says which happened.
    #[verifier::opaque]
    pub open spec fn adapt_throwing_virtuals(
        self,
        types: Seq<NominalView>,
        count: nat,
    ) -> LoweringView<'a>
        decreases count,
    {
        if count == 0 {
            self
        } else {
            let b = self.adapt_throwing_virtuals(types, (count - 1) as nat);
            let i = (count - 1) as nat;
            let b = match interface_in_view(types[i as int]) {
                Some(held) => {
                    let b = b.adapt_implementors(
                        TypeId(index_id_view(i as nat)),
                        held.methods,
                        held.implementors,
                        held.implementors.len(),
                    );
                    b
                },
                None => {
                    b
                },
            };
            b
        }
    }

    /// Adapts what each implementor of an interface fills its slots with.
    #[verifier::opaque]
    pub open spec fn adapt_implementors(
        self,
        interface: TypeId,
        methods: Seq<MethodView>,
        implementors: Seq<ImplementationView>,
        count: nat,
    ) -> LoweringView<'a>
        decreases count,
    {
        if count == 0 {
            self
        } else {
            let b = self.adapt_implementors(interface, methods, implementors, (count - 1) as nat);
            let i = (count - 1) as nat;
            let b = b.adapt_slots(
                interface,
                methods,
                implementors[i as int].ty,
                implementors[i as int].methods,
                implementors[i as int].methods.len(),
            );
            b
        }
    }

    /// Adapts what fills the slots that may throw.
    #[verifier::opaque]
    pub open spec fn adapt_slots(
        self,
        interface: TypeId,
        methods: Seq<MethodView>,
        ty: TyView,
        callees: Seq<FuncId>,
        count: nat,
    ) -> LoweringView<'a>
        decreases count,
    {
        if count == 0 {
            self
        } else {
            let b = self.adapt_slots(interface, methods, ty, callees, (count - 1) as nat);
            let i = (count - 1) as nat;
            let b = if slot_throws_view(methods, i as nat) {
                let (b, adapter) = b.virtual_adapter(callees[i as int]);
                let b = b.set_slot(interface, ty, i as nat, adapter);
                b
            } else {
                b
            };
            b
        }
    }

    /// Puts each lowered body into its function.
    #[verifier::opaque]
    pub open spec fn put_all(self, built: Seq<(FuncId, FunctionView)>, count: nat) -> LoweringView<'a>
        decreases count,
    {
        if count == 0 {
            self
        } else {
            let b = self.put_all(built, (count - 1) as nat);
            let i = (count - 1) as nat;
            let b = b.put_function(built[i as int].0, built[i as int].1);
            b
        }
    }

    /// Adds each closure, in the order they took their ids.
    #[verifier::opaque]
    pub open spec fn add_all(self, made: Seq<(FuncId, FunctionView)>, count: nat) -> LoweringView<'a>
        decreases count,
    {
        if count == 0 {
            self
        } else {
            let b = self.add_all(made, (count - 1) as nat);
            let i = (count - 1) as nat;
            let (b, _) = b.add_function(made[i as int].1);
            b
        }
    }

    /// Writes each derived body once every function has an id for the calls between
    /// them to name.
    #[verifier::opaque]
    pub open spec fn write_derived(self, derived: Seq<Derived<'a>>, count: nat) -> LoweringView<'a>
        decreases count,
    {
        if count == 0 {
            self
        } else {
            let b = self.write_derived(derived, (count - 1) as nat);
            let i = (count - 1) as nat;
            let member = derived[i as int].member;
            let (b, owner) = b.convert(member.owner, member.span);
            let b = match named_id_view(owner) {
                Some(id) => {
                    let b = b.derive_body(derived[i as int].id, member.member@, id, member.span);
                    b
                },
                None => {
                    b
                },
            };
            b
        }
    }
}

impl<'a> Lowering<'a> {
    /// Records each module-level `const`.
    pub fn collect_constants(&mut self, modules: &'a Vec<Node>)
        ensures
            final(self)@ == old(self)@.collect_constants(modules@, modules@.len()),
    {
        let ghost start = self@;
        let mut i: usize = 0;
        proof {
            reveal(LoweringView::collect_constants);
        }
        while i < modules.len()
            invariant
                i <= modules.len(),
                self@ == start.collect_constants(modules@, i as nat),
            decreases modules.len() - i,
        {
            proof {
                reveal(LoweringView::collect_constants);
            }
            self.constants_in(module_at(i), &modules[i].ast.body.stmts);
            i += 1;
        }
    }

    /// Records each `const` among some statements.
    pub fn constants_in(&mut self, module: ModuleId, stmts: &'a Vec<Stmt>)
        ensures
            final(self)@ == old(self)@.constants_in(module, stmts@, stmts@.len()),
    {
        let ghost start = self@;
        let mut i: usize = 0;
        proof {
            reveal(LoweringView::constants_in);
        }
        while i < stmts.len()
            invariant
                i <= stmts.len(),
                self@ == start.constants_in(module, stmts@, i as nat),
            decreases stmts.len() - i,
        {
            proof {
                reveal(LoweringView::constants_in);
            }
            match constant_written(module, &stmts[i]) {
                Some(held) => {
                    self.put_constant(held);
                },
                None => {},
            }
            i += 1;
        }
    }

    /// Gives every declared type an id, so that one may name another.
    pub fn name_types(&mut self, entries: &'a Vec<Entry>)
        ensures
            final(self)@ == old(self)@.name_types(entries@, entries@.len()),
    {
        let ghost start = self@;
        let mut i: usize = 0;
        proof {
            reveal(LoweringView::name_types);
        }
        while i < entries.len()
            invariant
                i <= entries.len(),
                self@ == start.name_types(entries@, i as nat),
            decreases entries.len() - i,
        {
            proof {
                reveal(LoweringView::name_types);
            }
            if is_type(&entries[i].decl) {
                self.name_type(entries[i].module, &entries[i].name);
            }
            i += 1;
        }
    }

    /// Fills in what each declared type holds, in the order they were given ids.
    pub fn build_types(&mut self, entries: &'a Vec<Entry>)
        ensures
            final(self)@ == old(self)@.build_types(entries@, entries@.len()),
    {
        let ghost start = self@;
        let mut i: usize = 0;
        proof {
            reveal(LoweringView::build_types);
        }
        while i < entries.len()
            invariant
                i <= entries.len(),
                self@ == start.build_types(entries@, i as nat),
            decreases entries.len() - i,
        {
            proof {
                reveal(LoweringView::build_types);
            }
            match &entries[i].decl {
                Decl::Struct(held) => {
                    self.structure(&entries[i], held);
                },
                Decl::Enum(held) => {
                    self.enumeration(&entries[i], held);
                },
                Decl::Interface(held) => {
                    self.interface(&entries[i], held);
                },
                _ => {},
            }
            i += 1;
        }
    }

    /// Fills in a struct. A field written with a default may be left out of a
    /// literal, and the default is evaluated where the literal is written.
    pub fn structure(&mut self, entry: &'a Entry, held: &'a StructType)
        ensures
            final(self)@ == old(self)@.structure(*entry, *held),
    {
        proof {
            reveal(LoweringView::structure);
        }
        let span = self.declaration_span(entry.module, entry.name.as_str());
        let id = self.next_type();
        let fields = self.fields(&held.fields, span);
        let defaults = self.defaults_of(entry.module, entry.name.as_str());
        self.keep_defaults(id, &defaults);
        let name = self.qualify(entry.module, entry.name.as_str());
        let repr_c = self.repr_c(entry.module, entry.name.as_str());
        let type_params = clone_names(&held.type_params);
        self.add_type(
            Nominal {
                name,
                type_params,
                shape: Shape::Struct(Struct { fields, reference: held.reference, repr_c }),
                span,
            },
        );
    }

    /// Records each default written beside a field.
    pub fn keep_defaults(&mut self, id: TypeId, defaults: &Vec<Option<&'a Expr>>)
        ensures
            final(self)@ == old(self)@.keep_defaults(id, defaults@, defaults@.len()),
    {
        let ghost start = self@;
        let mut i: usize = 0;
        proof {
            reveal(LoweringView::keep_defaults);
        }
        while i < defaults.len()
            invariant
                i <= defaults.len(),
                self@ == start.keep_defaults(id, defaults@, i as nat),
            decreases defaults.len() - i,
        {
            proof {
                reveal(LoweringView::keep_defaults);
            }
            match defaults[i] {
                Some(value) => {
                    self.put_default(FieldDefault { owner: id, field: index_id(i), value });
                },
                None => {},
            }
            i += 1;
        }
    }

    /// Some fields, at the types they are made of.
    pub fn fields(&mut self, declared: &'a Vec<(String, Type)>, span: Span) -> (fields: Vec<Field>)
        ensures
            (final(self)@, views(fields@)) == old(self)@.fields(declared@, span, declared@.len()),
    {
        let ghost start = self@;
        let mut fields: Vec<Field> = Vec::new();
        let mut i: usize = 0;
        proof {
            reveal(LoweringView::fields);
        }
        assert(views(fields@) =~= Seq::empty());
        while i < declared.len()
            invariant
                i <= declared.len(),
                (self@, views(fields@)) == start.fields(declared@, span, i as nat),
            decreases declared.len() - i,
        {
            proof {
                reveal(LoweringView::fields);
            }
            let ty = self.convert(&declared[i].1, span);
            push_view(&mut fields, Field { name: declared[i].0.clone(), ty });
            i += 1;
        }
        fields
    }

    /// Some fields that have no names, which are numbered.
    pub fn numbered_fields(&mut self, types: &'a Vec<Type>, span: Span) -> (fields: Vec<Field>)
        ensures
            (
                final(self)@,
                views(fields@),
            ) == old(self)@.numbered_fields(types@, span, types@.len()),
    {
        let ghost start = self@;
        let mut fields: Vec<Field> = Vec::new();
        let mut i: usize = 0;
        proof {
            reveal(LoweringView::numbered_fields);
        }
        assert(views(fields@) =~= Seq::empty());
        while i < types.len()
            invariant
                i <= types.len(),
                (self@, views(fields@)) == start.numbered_fields(types@, span, i as nat),
            decreases types.len() - i,
        {
            proof {
                reveal(LoweringView::numbered_fields);
            }
            let ty = self.convert(&types[i], span);
            push_view(&mut fields, Field { name: numbered(i), ty });
            i += 1;
        }
        fields
    }

    /// Fills in an enum. A variant's tag is its position, and the position is the one
    /// it was declared at.
    pub fn enumeration(&mut self, entry: &'a Entry, held: &'a EnumType)
        ensures
            final(self)@ == old(self)@.enumeration(*entry, *held),
    {
        proof {
            reveal(LoweringView::enumeration);
        }
        let span = self.declaration_span(entry.module, entry.name.as_str());
        let item = self.enum_declared(entry.module, entry.name.as_str());
        let variants = match item {
            Some(item) => {
                self.variants(&item.variants, &held.variants, span)
            },
            None => {
                no_variants()
            },
        };
        let name = self.qualify(entry.module, entry.name.as_str());
        let type_params = clone_names(&held.type_params);
        self.add_type(Nominal { name, type_params, shape: Shape::Enum(Enum { variants }), span });
    }

    /// The variants of an enum, in the order they are written.
    pub fn variants(
        &mut self,
        order: &'a Vec<String>,
        declared: &'a Vec<(String, VariantType)>,
        span: Span,
    ) -> (variants: Vec<Variant>)
        ensures
            (final(self)@, views(variants@)) == old(self)@.variants(
                order@,
                declared@,
                span,
                order@.len(),
            ),
    {
        let ghost start = self@;
        let mut variants: Vec<Variant> = Vec::new();
        let mut i: usize = 0;
        proof {
            reveal(LoweringView::variants);
        }
        assert(views(variants@) =~= Seq::empty());
        while i < order.len()
            invariant
                i <= order.len(),
                (self@, views(variants@)) == start.variants(order@, declared@, span, i as nat),
            decreases order.len() - i,
        {
            proof {
                reveal(LoweringView::variants);
            }
            match variant_type(declared, order[i].as_str()) {
                Some(payload) => {
                    let fields = match payload {
                        VariantType::Unit => {
                            no_fields()
                        },
                        VariantType::Tuple(types) => {
                            self.numbered_fields(types, span)
                        },
                        VariantType::Record(named) => {
                            self.fields(named, span)
                        },
                    };
                    push_view(&mut variants, Variant { name: order[i].clone(), fields });
                },
                None => {},
            }
            i += 1;
        }
        variants
    }

    /// Fills in an interface. The slot a call names is a method's position here, so
    /// the order has to be one every module agrees on.
    pub fn interface(&mut self, entry: &'a Entry, held: &'a InterfaceType)
        ensures
            final(self)@ == old(self)@.interface(*entry, *held),
    {
        proof {
            reveal(LoweringView::interface);
        }
        let span = self.declaration_span(entry.module, entry.name.as_str());
        let id = self.next_type();
        let all = flat(&held.methods);
        let methods = self.methods(id, &all, span);
        let name = self.qualify(entry.module, entry.name.as_str());
        let type_params = clone_names(&held.type_params);
        self.add_type(
            Nominal {
                name,
                type_params,
                shape: Shape::Interface(Interface { methods, implementors: no_implementors() }),
                span,
            },
        );
    }

    /// The methods of an interface.
    pub fn methods(
        &mut self,
        id: TypeId,
        all: &Vec<Named<'a>>,
        span: Span,
    ) -> (methods: Vec<Method>)
        ensures
            (final(self)@, views(methods@)) == old(self)@.methods(id, all@, span, all@.len()),
    {
        let ghost start = self@;
        let mut methods: Vec<Method> = Vec::new();
        let mut i: usize = 0;
        proof {
            reveal(LoweringView::methods);
        }
        assert(views(methods@) =~= Seq::empty());
        while i < all.len()
            invariant
                i <= all.len(),
                (self@, views(methods@)) == start.methods(id, all@, span, i as nat),
            decreases all.len() - i,
        {
            proof {
                reveal(LoweringView::methods);
            }
            let signature = all[i].signature;
            let params = self.param_types(&signature.params, span);
            let result = self.convert(&signature.result, span);
            self.put_virtual(signature.span, MethodId { interface: id, slot: index_id(i) });
            push_view(
                &mut methods,
                Method {
                    name: all[i].name.clone(),
                    params,
                    result,
                    throws: false,
                    asynchronous: signature.asynchronous,
                },
            );
            i += 1;
        }
        methods
    }

    /// The types of some parameters.
    pub fn param_types(&mut self, params: &'a Vec<ParamType>, span: Span) -> (types: Vec<Ty>)
        ensures
            (final(self)@, tys(types@)) == old(self)@.param_types(params@, span, params@.len()),
    {
        let ghost start = self@;
        let mut types: Vec<Ty> = Vec::new();
        let mut i: usize = 0;
        proof {
            reveal(LoweringView::param_types);
        }
        assert(tys(types@) =~= Seq::empty());
        while i < params.len()
            invariant
                i <= params.len(),
                (self@, tys(types@)) == start.param_types(params@, span, i as nat),
            decreases params.len() - i,
        {
            proof {
                reveal(LoweringView::param_types);
            }
            let ty = self.convert(&params[i].ty, span);
            push_ty(&mut types, ty);
            i += 1;
        }
        types
    }

    /// Gives every declaration an id and a signature.
    pub fn declare_functions(&mut self, found: &Vec<Found<'a>>)
        ensures
            final(self)@ == old(self)@.declare_functions(found@, found@.len()),
    {
        let ghost start = self@;
        let mut i: usize = 0;
        proof {
            reveal(LoweringView::declare_functions);
        }
        while i < found.len()
            invariant
                i <= found.len(),
                self@ == start.declare_functions(found@, i as nat),
            decreases found.len() - i,
        {
            proof {
                reveal(LoweringView::declare_functions);
            }
            self.declare(found[i]);
            i += 1;
        }
    }

    /// Gives a declaration an id and a signature. A method takes its receiver as the
    /// first argument, which is what `self` is once the call is written out in full.
    /// Exceptions are absent from signatures, so a function an exception can escape
    /// gives back either what it returned or what it threw.
    #[verifier::rlimit(60)]
    pub fn declare(&mut self, found: Found<'a>)
        ensures
            final(self)@ == old(self)@.declare(found),
    {
        proof {
            reveal(LoweringView::declare);
        }
        let function = found.function;
        let span = function.span;
        let signature = match self.signature(span) {
            Some(signature) => signature,
            None => {
                return;
            },
        };
        let owner = self.receiver_of(found, signature.takes_self);
        if signature.takes_self && !has_owner(&owner) {
            self.gap(span, "a method whose receiver has no type");
        }
        let taken = self.taken(function, signature.takes_self, &signature.params, span);
        let declared = self.convert(&signature.result, span);
        let throws = self.is_throwing(span);
        let path = path_of(&found);
        let name = self.qualify(found.module, path.as_str());
        let external = extern_symbol(function, &self.table.symbols);
        let lowered = declared_shell(
            name,
            &owner,
            signature,
            function,
            &taken,
            given_back(declared, throws),
            external,
        );
        let type_params = all_params(&owner, &names_of(&signature.type_params));
        let id = self.add_function(lowered);
        self.put_callee(
            span,
            Callee {
                id,
                takes_self: signature.takes_self,
                params: taken,
                type_params,
                throws,
                asynchronous: signature.asynchronous,
            },
        );
        if function.exported && same_text(path.as_str(), "main") {
            self.set_entry(id);
        }
        match &function.body {
            Some(body) => {
                self.push_body(
                    Pending {
                        id,
                        module: found.module,
                        bindings: bindings_of(has_owner(&owner), function, signature),
                        throws,
                        body: body,
                    },
                );
            },
            None => {},
        }
    }

    /// The parameters of a declaration, without `self`.
    pub fn taken(
        &mut self,
        function: &'a FunctionItem,
        takes_self: bool,
        params: &'a Vec<ParamType>,
        span: Span,
    ) -> (taken: Vec<Parameter<'a>>)
        ensures
            (final(self)@, views(taken@)) == old(self)@.taken(
                *function,
                takes_self,
                params@,
                span,
                params@.len(),
            ),
    {
        let ghost start = self@;
        let mut taken: Vec<Parameter<'a>> = Vec::new();
        let mut i: usize = 0;
        proof {
            reveal(LoweringView::taken);
        }
        assert(views(taken@) =~= Seq::empty());
        while i < params.len()
            invariant
                i <= params.len(),
                (self@, views(taken@)) == start.taken(
                    *function,
                    takes_self,
                    params@,
                    span,
                    i as nat,
                ),
            decreases params.len() - i,
        {
            proof {
                reveal(LoweringView::taken);
            }
            let ty = self.convert(&params[i].ty, span);
            push_view(
                &mut taken,
                Parameter {
                    name: &params[i].name,
                    ty,
                    variadic: params[i].variadic,
                    default: default_written(function, takes_self, i),
                },
            );
            i += 1;
        }
        taken
    }

    /// Gives every module with statements outside its declarations a function that
    /// runs them.
    pub fn declare_initializers(&mut self, order: &Vec<ModuleId>)
        ensures
            final(self)@ == old(self)@.declare_initializers(order@, order@.len()),
    {
        let ghost start = self@;
        let mut i: usize = 0;
        proof {
            reveal(LoweringView::declare_initializers);
        }
        while i < order.len()
            invariant
                i <= order.len(),
                self@ == start.declare_initializers(order@, i as nat),
            decreases order.len() - i,
        {
            proof {
                reveal(LoweringView::declare_initializers);
            }
            match self.node(order[i]) {
                Some(node) => {
                    self.declare_initializer(order[i], node);
                },
                None => {},
            }
            i += 1;
        }
    }

    /// Gives a module a function that runs its statements, where it has any.
    pub fn declare_initializer(&mut self, module: ModuleId, node: &'a Node)
        ensures
            final(self)@ == old(self)@.declare_initializer(module, *node),
    {
        proof {
            reveal(LoweringView::declare_initializer);
        }
        if node.ast.body.stmts.len() > 0 {
            let name = self.qualify(module, "$init");
            let id = self.add_function(
                shell(name, no_names(), no_tys(), Ty::Unit, node.ast.span, true),
            );
            self.push_initializer(id);
            self.push_body(
                Pending {
                    id,
                    module,
                    bindings: nothing_bound(),
                    throws: false,
                    body: &node.ast.body,
                },
            );
        }
    }

    /// Gives every finalizer a function of its own.
    pub fn declare_finalizers(&mut self, modules: &'a Vec<Node>)
        ensures
            final(self)@ == old(self)@.declare_finalizers(modules@, modules@.len()),
    {
        let ghost start = self@;
        let mut i: usize = 0;
        proof {
            reveal(LoweringView::declare_finalizers);
        }
        while i < modules.len()
            invariant
                i <= modules.len(),
                self@ == start.declare_finalizers(modules@, i as nat),
            decreases modules.len() - i,
        {
            proof {
                reveal(LoweringView::declare_finalizers);
            }
            self.finalizers_in(module_at(i), &modules[i].ast.items);
            i += 1;
        }
    }

    /// The finalizers among the items of a module.
    pub fn finalizers_in(&mut self, module: ModuleId, items: &'a Vec<Item>)
        ensures
            final(self)@ == old(self)@.finalizers_in(module, items@, items@.len()),
    {
        let ghost start = self@;
        let mut i: usize = 0;
        proof {
            reveal(LoweringView::finalizers_in);
        }
        while i < items.len()
            invariant
                i <= items.len(),
                self@ == start.finalizers_in(module, items@, i as nat),
            decreases items.len() - i,
        {
            proof {
                reveal(LoweringView::finalizers_in);
            }
            match &items[i] {
                Item::Struct(held) => {
                    if held.reference {
                        self.finalizers_of(module, &held.name, &held.members);
                    }
                },
                _ => {},
            }
            i += 1;
        }
    }

    /// The finalizers among the members of a struct.
    pub fn finalizers_of(&mut self, module: ModuleId, owner: &'a String, members: &'a Vec<Member>)
        ensures
            final(self)@ == old(self)@.finalizers_of(module, owner, members@, members@.len()),
    {
        let ghost start = self@;
        let mut i: usize = 0;
        proof {
            reveal(LoweringView::finalizers_of);
        }
        while i < members.len()
            invariant
                i <= members.len(),
                self@ == start.finalizers_of(module, owner, members@, i as nat),
            decreases members.len() - i,
        {
            proof {
                reveal(LoweringView::finalizers_of);
            }
            match &members[i] {
                Member::Function(function) => {
                    if is_finalizer(function) {
                        self.declare_finalizer(module, owner, function);
                    }
                },
                _ => {},
            }
            i += 1;
        }
    }

    /// Gives a finalizer a function of its own.
    pub fn declare_finalizer(
        &mut self,
        module: ModuleId,
        owner: &'a String,
        function: &'a FunctionItem,
    )
        ensures
            final(self)@ == old(self)@.declare_finalizer(module, owner, *function),
    {
        proof {
            reveal(LoweringView::declare_finalizer);
        }
        let id = match self.id_of(module, owner.as_str()) {
            Some(id) => id,
            None => {
                return;
            },
        };
        let params = self.type_params_of(id);
        let receiver = generic_over(id, &params);
        let written = last_written(function);
        let path = dotted(owner.as_str(), written.as_str());
        let name = self.qualify(module, path.as_str());
        let finalizer = self.add_function(
            shell(name, params, one_type(&receiver), Ty::Unit, function.span, true),
        );
        self.set_finalizer(receiver, finalizer);
        match &function.body {
            Some(body) => {
                self.push_body(
                    Pending {
                        id: finalizer,
                        module,
                        bindings: receiver_only(),
                        throws: false,
                        body: body,
                    },
                );
            },
            None => {},
        }
    }

    /// Gives every computed member the functions it is read and written through.
    pub fn declare_properties(&mut self, modules: &'a Vec<Node>)
        ensures
            final(self)@ == old(self)@.declare_properties(modules@, modules@.len()),
    {
        let ghost start = self@;
        let mut i: usize = 0;
        proof {
            reveal(LoweringView::declare_properties);
        }
        while i < modules.len()
            invariant
                i <= modules.len(),
                self@ == start.declare_properties(modules@, i as nat),
            decreases modules.len() - i,
        {
            proof {
                reveal(LoweringView::declare_properties);
            }
            self.properties_in(module_at(i), &modules[i].ast.items);
            i += 1;
        }
    }

    /// The computed members among the items of a module.
    pub fn properties_in(&mut self, module: ModuleId, items: &'a Vec<Item>)
        ensures
            final(self)@ == old(self)@.properties_in(module, items@, items@.len()),
    {
        let ghost start = self@;
        let mut i: usize = 0;
        proof {
            reveal(LoweringView::properties_in);
        }
        while i < items.len()
            invariant
                i <= items.len(),
                self@ == start.properties_in(module, items@, i as nat),
            decreases items.len() - i,
        {
            proof {
                reveal(LoweringView::properties_in);
            }
            match &items[i] {
                Item::Struct(held) => {
                    self.properties_of(module, &held.name, &held.members);
                },
                _ => {},
            }
            i += 1;
        }
    }

    /// The computed members among the members of a struct.
    pub fn properties_of(&mut self, module: ModuleId, owner: &'a String, members: &'a Vec<Member>)
        ensures
            final(self)@ == old(self)@.properties_of(module, owner, members@, members@.len()),
    {
        let ghost start = self@;
        let mut i: usize = 0;
        proof {
            reveal(LoweringView::properties_of);
        }
        while i < members.len()
            invariant
                i <= members.len(),
                self@ == start.properties_of(module, owner, members@, i as nat),
            decreases members.len() - i,
        {
            proof {
                reveal(LoweringView::properties_of);
            }
            match &members[i] {
                Member::Property(property) => {
                    self.declare_property(module, owner, property);
                },
                _ => {},
            }
            i += 1;
        }
    }

    /// Gives a computed member the functions it is read and written through. The
    /// table resolved the declared type when it built the struct, so it is read from
    /// there rather than resolved a second time.
    pub fn declare_property(
        &mut self,
        module: ModuleId,
        owner: &'a String,
        property: &'a PropertyItem,
    )
        ensures
            final(self)@ == old(self)@.declare_property(module, owner, *property),
    {
        proof {
            reveal(LoweringView::declare_property);
        }
        let span = property.span;
        let id = match self.id_of(module, owner.as_str()) {
            Some(id) => id,
            None => {
                self.gap(span, "a property whose type the compiler could not find");
                return;
            },
        };
        let params = self.type_params_of(id);
        let receiver = generic_over(id, &params);
        let path = dotted(owner.as_str(), property.name.as_str());
        let declared = match self.property_declared(module, owner.as_str(), property.name.as_str()) {
            Some(declared) => declared,
            None => {
                self.gap(span, "a property the declaration table does not hold");
                return;
            },
        };
        let ty = self.convert(declared, span);
        let name = self.qualify(module, path.as_str());
        let get = self.add_function(
            shell(name, names_again(&params), one_type(&receiver), ty.clone(), span, true),
        );
        self.push_body(
            Pending {
                id: get,
                module,
                bindings: receiver_only(),
                throws: false,
                body: &property.get,
            },
        );
        // A setter is written or the property is read-only.
        let set = match &property.set {
            Some(setter) => {
                let id = self.declare_setter(module, path.as_str(), setter, params, &receiver, &ty);
                Some(id)
            },
            None => {
                None
            },
        };
        self.put_property(Property { owner: id, name: &property.name, ty, get, set });
    }

    /// Gives a computed member the function it is written through.
    pub fn declare_setter(
        &mut self,
        module: ModuleId,
        path: &str,
        setter: &'a Setter,
        params: Vec<String>,
        receiver: &Ty,
        ty: &Ty,
    ) -> (produced: FuncId)
        ensures
            (final(self)@, produced) == old(self)@.declare_setter(
                module,
                path@,
                *setter,
                names(params@),
                receiver@,
                ty@,
            ),
    {
        proof {
            reveal(LoweringView::declare_setter);
        }
        let written = setter_name(path);
        let name = self.qualify(module, written.as_str());
        let id = self.add_function(
            shell(name, params, two_types(receiver, ty), Ty::Unit, setter.span, true),
        );
        self.push_body(
            Pending {
                id,
                module,
                bindings: receiver_and(&setter.param),
                throws: false,
                body: &setter.body,
            },
        );
        id
    }

    /// A derived member has no body written anywhere in the program, so it takes an
    /// id here and a body once every function has one.
    pub fn declare_derived(&mut self, members: &'a Vec<DerivedMember>)
        ensures
            final(self)@ == old(self)@.declare_derived(members@, members@.len()),
    {
        let ghost start = self@;
        let mut i: usize = 0;
        proof {
            reveal(LoweringView::declare_derived);
        }
        while i < members.len()
            invariant
                i <= members.len(),
                self@ == start.declare_derived(members@, i as nat),
            decreases members.len() - i,
        {
            proof {
                reveal(LoweringView::declare_derived);
            }
            match derived_owner(&members[i].owner) {
                Some(owner) => {
                    self.declare_one(owner.0, owner.1, &members[i]);
                },
                None => {},
            }
            i += 1;
        }
    }

    /// Gives a derived member an id and a signature.
    pub fn declare_one(&mut self, module: ModuleId, owner: &'a String, member: &'a DerivedMember)
        ensures
            final(self)@ == old(self)@.declare_one(module, owner, *member),
    {
        proof {
            reveal(LoweringView::declare_one);
        }
        let span = member.span;
        let signature = match self.signature(span) {
            Some(signature) => signature,
            None => {
                return;
            },
        };
        let receiver = self.convert(&member.owner, span);
        let type_params = self.params_brought(&receiver);
        let taken = self.plainly_taken(&signature.params, span);
        let result = self.convert(&signature.result, span);
        let path = dotted(owner.as_str(), member.member.as_str());
        let name = self.qualify(module, path.as_str());
        let id = self.add_function(
            shell(
                name,
                names_again(&type_params),
                after_first(&receiver, &taken),
                result,
                span,
                true,
            ),
        );
        self.put_callee(
            span,
            Callee {
                id,
                takes_self: true,
                params: taken,
                type_params,
                throws: false,
                asynchronous: false,
            },
        );
        self.push_derived(Derived { id, member: member });
    }

    /// The parameters of a derived member, which have no defaults.
    pub fn plainly_taken(
        &mut self,
        params: &'a Vec<ParamType>,
        span: Span,
    ) -> (taken: Vec<Parameter<'a>>)
        ensures
            (final(self)@, views(taken@)) == old(self)@.plainly_taken(params@, span, params@.len()),
    {
        let ghost start = self@;
        let mut taken: Vec<Parameter<'a>> = Vec::new();
        let mut i: usize = 0;
        proof {
            reveal(LoweringView::plainly_taken);
        }
        assert(views(taken@) =~= Seq::empty());
        while i < params.len()
            invariant
                i <= params.len(),
                (self@, views(taken@)) == start.plainly_taken(params@, span, i as nat),
            decreases params.len() - i,
        {
            proof {
                reveal(LoweringView::plainly_taken);
            }
            let ty = self.convert(&params[i].ty, span);
            push_view(
                &mut taken,
                Parameter { name: &params[i].name, ty, variadic: false, default: None },
            );
            i += 1;
        }
        taken
    }

    /// Records, for each interface, which types implement it and what each of its
    /// method slots resolves to for that type.
    pub fn build_vtables(&mut self, entries: &'a Vec<Entry>)
        ensures
            final(self)@ == old(self)@.build_vtables(entries@, entries@.len()),
    {
        let ghost start = self@;
        let mut i: usize = 0;
        proof {
            reveal(LoweringView::build_vtables);
        }
        while i < entries.len()
            invariant
                i <= entries.len(),
                self@ == start.build_vtables(entries@, i as nat),
            decreases entries.len() - i,
        {
            proof {
                reveal(LoweringView::build_vtables);
            }
            match &entries[i].decl {
                Decl::Struct(held) => {
                    self.implement_all(&entries[i], held, &held.implements);
                },
                _ => {},
            }
            i += 1;
        }
    }

    /// Records each interface a struct claims to implement.
    pub fn implement_all(&mut self, entry: &'a Entry, held: &'a StructType, claims: &'a Vec<Type>)
        ensures
            final(self)@ == old(self)@.implement_all(*entry, *held, claims@, claims@.len()),
    {
        let ghost start = self@;
        let mut i: usize = 0;
        proof {
            reveal(LoweringView::implement_all);
        }
        while i < claims.len()
            invariant
                i <= claims.len(),
                self@ == start.implement_all(*entry, *held, claims@, i as nat),
            decreases claims.len() - i,
        {
            proof {
                reveal(LoweringView::implement_all);
            }
            match self.id_of(entry.module, entry.name.as_str()) {
                Some(id) => {
                    self.implement(entry, held, id, &claims[i]);
                },
                None => {},
            }
            i += 1;
        }
    }

    /// Records that a type implements an interface, with the function each of the
    /// interface's methods resolves to.
    pub fn implement(&mut self, entry: &'a Entry, held: &'a StructType, id: TypeId, claim: &'a Type)
        ensures
            final(self)@ == old(self)@.implement(*entry, *held, id, *claim),
    {
        proof {
            reveal(LoweringView::implement);
        }
        let span = self.declaration_span(entry.module, entry.name.as_str());
        let interface = match self.claimed(claim) {
            Some(interface) => interface,
            None => {
                self.gap(span, "an interface the compiler could not find");
                return;
            },
        };
        let wanted = match self.wanted(interface) {
            Some(wanted) => wanted,
            None => {
                return;
            },
        };
        let found = self.resolved(&held.methods, &wanted);
        self.note_throwing(interface, &found);
        if found.len() < wanted.len() {
            let missing = method_named(&wanted, found.len());
            let what = unresolved(entry.name.as_str(), missing.as_str());
            self.gap(span, what.as_str());
            return;
        }
        self.push_implementor(
            interface,
            Implementation { ty: Ty::Named { id, args: no_tys() }, methods: ids_of(&found) },
        );
    }

    /// Marks each slot that something throwing fills.
    pub fn note_throwing(&mut self, interface: TypeId, found: &Vec<Resolved>)
        ensures
            final(self)@ == old(self)@.note_throwing(interface, found@, found@.len()),
    {
        let ghost start = self@;
        let mut i: usize = 0;
        proof {
            reveal(LoweringView::note_throwing);
        }
        while i < found.len()
            invariant
                i <= found.len(),
                self@ == start.note_throwing(interface, found@, i as nat),
            decreases found.len() - i,
        {
            proof {
                reveal(LoweringView::note_throwing);
            }
            if found[i].throws {
                self.mark_throwing(interface, i);
            }
            i += 1;
        }
    }

    /// Gives what fills a slot that may throw a form that says which happened.
    pub fn adapt_throwing_virtuals(&mut self, types: &Vec<Nominal>)
        ensures
            final(self)@ == old(self)@.adapt_throwing_virtuals(views(types@), types@.len()),
    {
        let ghost start = self@;
        let mut i: usize = 0;
        proof {
            reveal(LoweringView::adapt_throwing_virtuals);
        }
        while i < types.len()
            invariant
                i <= types.len(),
                self@ == start.adapt_throwing_virtuals(views(types@), i as nat),
            decreases types.len() - i,
        {
            proof {
                reveal(LoweringView::adapt_throwing_virtuals);
            }
            match interface_in(&types[i]) {
                Some(held) => {
                    self.adapt_implementors(TypeId(index_id(i)), &held.methods, &held.implementors);
                },
                None => {},
            }
            i += 1;
        }
    }

    /// Adapts what each implementor of an interface fills its slots with.
    pub fn adapt_implementors(
        &mut self,
        interface: TypeId,
        methods: &Vec<Method>,
        implementors: &Vec<Implementation>,
    )
        ensures
            final(self)@ == old(self)@.adapt_implementors(
                interface,
                views(methods@),
                views(implementors@),
                implementors@.len(),
            ),
    {
        let ghost start = self@;
        let mut i: usize = 0;
        proof {
            reveal(LoweringView::adapt_implementors);
        }
        while i < implementors.len()
            invariant
                i <= implementors.len(),
                self@ == start.adapt_implementors(
                    interface,
                    views(methods@),
                    views(implementors@),
                    i as nat,
                ),
            decreases implementors.len() - i,
        {
            proof {
                reveal(LoweringView::adapt_implementors);
            }
            self.adapt_slots(interface, methods, &implementors[i].ty, &implementors[i].methods);
            i += 1;
        }
    }

    /// Adapts what fills the slots that may throw.
    pub fn adapt_slots(
        &mut self,
        interface: TypeId,
        methods: &Vec<Method>,
        ty: &Ty,
        callees: &Vec<FuncId>,
    )
        ensures
            final(self)@ == old(self)@.adapt_slots(
                interface,
                views(methods@),
                ty@,
                callees@,
                callees@.len(),
            ),
    {
        let ghost start = self@;
        let mut i: usize = 0;
        proof {
            reveal(LoweringView::adapt_slots);
        }
        while i < callees.len()
            invariant
                i <= callees.len(),
                self@ == start.adapt_slots(interface, views(methods@), ty@, callees@, i as nat),
            decreases callees.len() - i,
        {
            proof {
                reveal(LoweringView::adapt_slots);
            }
            if slot_throws(methods, i) {
                let adapter = self.virtual_adapter(callees[i]);
                self.set_slot(interface, ty, i, adapter);
            }
            i += 1;
        }
    }

    /// Puts each lowered body into its function.
    pub fn put_all(&mut self, built: &Vec<(FuncId, Function)>)
        ensures
            final(self)@ == old(self)@.put_all(made_views(built@), built@.len()),
    {
        let ghost start = self@;
        let mut i: usize = 0;
        proof {
            reveal(LoweringView::put_all);
        }
        while i < built.len()
            invariant
                i <= built.len(),
                self@ == start.put_all(made_views(built@), i as nat),
            decreases built.len() - i,
        {
            proof {
                reveal(LoweringView::put_all);
            }
            self.put_function(built[i].0, built[i].1.clone());
            i += 1;
        }
    }

    /// Adds each closure, in the order they took their ids.
    pub fn add_all(&mut self, made: &Vec<(FuncId, Function)>)
        ensures
            final(self)@ == old(self)@.add_all(made_views(made@), made@.len()),
    {
        let ghost start = self@;
        let mut i: usize = 0;
        proof {
            reveal(LoweringView::add_all);
        }
        while i < made.len()
            invariant
                i <= made.len(),
                self@ == start.add_all(made_views(made@), i as nat),
            decreases made.len() - i,
        {
            proof {
                reveal(LoweringView::add_all);
            }
            let _ = self.add_function(made[i].1.clone());
            i += 1;
        }
    }

    /// Writes each derived body once every function has an id for the calls between
    /// them to name.
    pub fn write_derived(&mut self, derived: &Vec<Derived<'a>>)
        ensures
            final(self)@ == old(self)@.write_derived(derived@, derived@.len()),
    {
        let ghost start = self@;
        let mut i: usize = 0;
        proof {
            reveal(LoweringView::write_derived);
        }
        while i < derived.len()
            invariant
                i <= derived.len(),
                self@ == start.write_derived(derived@, i as nat),
            decreases derived.len() - i,
        {
            proof {
                reveal(LoweringView::write_derived);
            }
            let member = derived[i].member;
            let owner = self.convert(&member.owner, member.span);
            match named_id(&owner) {
                Some(id) => {
                    self.derive_body(derived[i].id, member.member.as_str(), id, member.span);
                },
                None => {},
            }
            i += 1;
        }
    }
}

} // verus!
