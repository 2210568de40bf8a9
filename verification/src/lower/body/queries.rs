//! What lowering a body asks of the rest of the program.

use vstd::prelude::*;

use crate::ast::{BinaryOp, Expr, ExprKind};
use crate::inst::{MethodId, Value};
use crate::lower::types::{convert, converted, converted_each, each};
use crate::program::{
    views, Field, FieldView, FuncId, Nominal, NominalView, Program, ProgramView, Shape,
    ShapeView, Variant, VariantView,
};
use crate::sema::{find_recorded, recorded_at, BuiltinCall, ModuleId, ProtocolMethod, Type};
use crate::span::Span;
use crate::text::{names, same_text};
use crate::ty::{maybe_ty, named_tys, tys, Builtin, Ty, TyView, TypeId};

use super::kinds::{
    args_of, args_of_view, builtin_args, builtin_args_view, is_ty, maybe_fields, maybe_tys,
    named_id, named_id_view, no_tys, optional_inner, optional_inner_view, record_fields, ty_at,
    ty_at_view,
};
use super::{
    callee_views, Body, BodyView, Callee, CalleeView, Constant, FieldDefault, Property, PropertyView,
};

verus! {

/// Where a field of that name sits, from `from` on.
pub open spec fn field_from(
    fields: Seq<(Seq<char>, TyView)>,
    name: Seq<char>,
    from: nat,
) -> Option<nat>
    decreases fields.len() - from,
{
    if from >= fields.len() {
        None
    } else if fields[from as int].0 == name {
        Some(from)
    } else {
        field_from(fields, name, from + 1)
    }
}

/// Where a field of that name sits.
pub open spec fn field_at_view(fields: Seq<(Seq<char>, TyView)>, name: Seq<char>) -> Option<u32> {
    match field_from(fields, name, 0) {
        Some(at) => if at <= u32::MAX {
            Some(at as u32)
        } else {
            None
        },
        None => None,
    }
}

/// Where a field of that name sits.
pub fn field_at(fields: &Vec<(String, Ty)>, name: &str) -> (found: Option<u32>)
    ensures
        found == field_at_view(named_tys(fields@), name@),
{
    let mut i: usize = 0;
    while i < fields.len()
        invariant
            i <= fields.len(),
            field_from(named_tys(fields@), name@, 0) == field_from(
                named_tys(fields@),
                name@,
                i as nat,
            ),
        decreases fields.len() - i,
    {
        assert(named_tys(fields@)[i as int].0 == fields@[i as int].0@);
        if same_text(fields[i].0.as_str(), name) {
            return if i as u64 <= 0xffff_ffff {
                Some(i as u32)
            } else {
                None
            };
        }
        i += 1;
    }
    None
}

/// The type of the field at an index.
pub open spec fn field_ty_view(fields: Seq<(Seq<char>, TyView)>, index: u32) -> TyView {
    if (index as int) < fields.len() {
        fields[index as int].1
    } else {
        TyView::Never
    }
}

/// The type of the field at an index.
pub fn field_ty(fields: &Vec<(String, Ty)>, index: u32) -> (ty: Ty)
    ensures
        ty@ == field_ty_view(named_tys(fields@), index),
{
    if (index as usize) < fields.len() {
        assert(named_tys(fields@)[index as int].1 == fields@[index as int].1@);
        fields[index as usize].1.clone()
    } else {
        Ty::Never
    }
}

/// Where a name sits among names, from `from` on.
pub open spec fn name_from(held: Seq<Seq<char>>, name: Seq<char>, from: nat) -> Option<nat>
    decreases held.len() - from,
{
    if from >= held.len() {
        None
    } else if held[from as int] == name {
        Some(from)
    } else {
        name_from(held, name, from + 1)
    }
}

/// Where a name sits among names.
pub open spec fn name_at_view(held: Seq<Seq<char>>, name: Seq<char>) -> Option<u32> {
    match name_from(held, name, 0) {
        Some(at) => if at <= u32::MAX {
            Some(at as u32)
        } else {
            None
        },
        None => None,
    }
}

/// Where a name sits among names.
pub fn name_at(held: &Vec<String>, name: &str) -> (found: Option<u32>)
    ensures
        found == name_at_view(names(held@), name@),
{
    let mut i: usize = 0;
    while i < held.len()
        invariant
            i <= held.len(),
            name_from(names(held@), name@, 0) == name_from(names(held@), name@, i as nat),
        decreases held.len() - i,
    {
        assert(names(held@)[i as int] == held@[i as int]@);
        if same_text(held[i].as_str(), name) {
            return if i as u64 <= 0xffff_ffff {
                Some(i as u32)
            } else {
                None
            };
        }
        i += 1;
    }
    None
}

/// The declared type called `id`, where there is one.
pub open spec fn nominal_of(program: ProgramView, id: TypeId) -> Option<NominalView> {
    if id.0 < program.types.len() {
        Some(program.types[id.0 as int])
    } else {
        None
    }
}

fn find_nominal(program: &Program, id: TypeId) -> (found: Option<&Nominal>)
    ensures
        match found {
            Some(held) => nominal_of(program@, id) == Some(held@),
            None => nominal_of(program@, id) is None,
        },
{
    if (id.0 as usize) < program.types.len() {
        assert(program@.types[id.0 as int] == program.types@[id.0 as int]@);
        Some(&program.types[id.0 as usize])
    } else {
        None
    }
}

/// The types of some fields with type parameters filled in.
pub open spec fn filled_fields(
    fields: Seq<FieldView>,
    params: Seq<Seq<char>>,
    args: Seq<TyView>,
) -> Seq<(Seq<char>, TyView)> {
    Seq::new(
        fields.len(),
        |i: int| (fields[i].name, fields[i].ty.substitute(params, args)),
    )
}

fn fill_fields(
    fields: &Vec<Field>,
    params: &Vec<String>,
    args: &Vec<Ty>,
) -> (filled: Vec<(String, Ty)>)
    ensures
        named_tys(filled@) == filled_fields(views(fields@), names(params@), tys(args@)),
{
    let mut filled: Vec<(String, Ty)> = Vec::new();
    let mut i: usize = 0;
    while i < fields.len()
        invariant
            i <= fields.len(),
            filled@.len() == i,
            forall|k: int|
                0 <= k < i ==> (#[trigger] filled@[k]).0@ == fields@[k]@.name && filled@[k].1@
                    == fields@[k]@.ty.substitute(names(params@), tys(args@)),
        decreases fields.len() - i,
    {
        filled.push((fields[i].name.clone(), fields[i].ty.substitute(params, args)));
        i += 1;
    }
    assert(named_tys(filled@) =~= filled_fields(views(fields@), names(params@), tys(args@)));
    filled
}

/// The types of some fields.
pub open spec fn field_types(fields: Seq<(Seq<char>, TyView)>) -> Seq<TyView> {
    Seq::new(fields.len(), |i: int| fields[i].1)
}

/// The names of some fields.
pub open spec fn field_names(fields: Seq<(Seq<char>, TyView)>) -> Seq<Seq<char>> {
    Seq::new(fields.len(), |i: int| fields[i].0)
}

/// The fields a type stores, in the order it declares them.
pub open spec fn fields_in(program: ProgramView, ty: TyView) -> Option<Seq<(Seq<char>, TyView)>> {
    match ty {
        TyView::Named { id, args } => match nominal_of(program, id) {
            Some(nominal) => match nominal.shape {
                ShapeView::Struct(structure) => Some(
                    filled_fields(structure.fields, nominal.type_params, args),
                ),
                _ => None,
            },
            None => None,
        },
        TyView::Record(fields) => Some(fields),
        _ => None,
    }
}

/// What a variant of an enum carries.
pub open spec fn payload_in(program: ProgramView, ty: TyView, variant: u32) -> Option<
    Seq<(Seq<char>, TyView)>,
> {
    match ty {
        TyView::Named { id, args } => match nominal_of(program, id) {
            Some(nominal) => match nominal.shape {
                ShapeView::Enum(enumeration) => if (variant as int) < enumeration.variants.len() {
                    Some(
                        filled_fields(
                            enumeration.variants[variant as int].fields,
                            nominal.type_params,
                            args,
                        ),
                    )
                } else {
                    None
                },
                _ => None,
            },
            None => None,
        },
        _ => None,
    }
}

/// Where a variant of that name sits, from `from` on.
pub open spec fn variant_from(variants: Seq<VariantView>, name: Seq<char>, from: nat) -> Option<
    nat,
>
    decreases variants.len() - from,
{
    if from >= variants.len() {
        None
    } else if variants[from as int].name == name {
        Some(from)
    } else {
        variant_from(variants, name, from + 1)
    }
}

/// The tag of the variant a name names, where the type is an enum with one.
pub open spec fn variant_in(program: ProgramView, ty: TyView, name: Seq<char>) -> Option<u32> {
    match ty {
        TyView::Builtin { kind, args } => if kind == Builtin::Result {
            if name == "Ok"@ {
                Some(0u32)
            } else if name == "Err"@ {
                Some(1u32)
            } else {
                None
            }
        } else {
            None
        },
        TyView::Named { id, args } => match nominal_of(program, id) {
            Some(nominal) => match nominal.shape {
                ShapeView::Enum(enumeration) => match variant_from(
                    enumeration.variants,
                    name,
                    0,
                ) {
                    Some(at) => if at <= u32::MAX {
                        Some(at as u32)
                    } else {
                        None
                    },
                    None => None,
                },
                _ => None,
            },
            None => None,
        },
        _ => None,
    }
}

/// Where the property of that type and name is listed first, from `from` on.
pub open spec fn property_from<'a>(
    properties: Seq<PropertyView<'a>>,
    owner: TypeId,
    name: Seq<char>,
    from: nat,
) -> Option<PropertyView<'a>>
    decreases properties.len() - from,
{
    if from >= properties.len() {
        None
    } else if properties[from as int].owner == owner && properties[from as int].name@ == name {
        Some(properties[from as int])
    } else {
        property_from(properties, owner, name, from + 1)
    }
}

/// Where the default of that field is listed first, from `from` on.
pub open spec fn default_from(
    defaults: Seq<FieldDefault>,
    owner: TypeId,
    field: u32,
    from: nat,
) -> Option<Expr>
    decreases defaults.len() - from,
{
    if from >= defaults.len() {
        None
    } else if defaults[from as int].owner == owner && defaults[from as int].field == field {
        Some(*defaults[from as int].value)
    } else {
        default_from(defaults, owner, field, from + 1)
    }
}

/// The constant of that module and name that is listed last among the first
/// `count`: where it is declared, and its initializer.
pub open spec fn constant_among(
    constants: Seq<Constant>,
    module: ModuleId,
    name: Seq<char>,
    count: nat,
) -> Option<(Span, Expr)>
    decreases count,
{
    if count == 0 {
        None
    } else if constants[count - 1].module == module && constants[count - 1].name@ == name {
        Some((constants[count - 1].span, *constants[count - 1].value))
    } else {
        constant_among(constants, module, name, (count - 1) as nat)
    }
}

impl<'a> BodyView<'a> {
    /// The declaration the call at `span` reaches.
    #[verifier::opaque]
    pub open spec fn reached(self, span: Span) -> Option<Span> {
        self.context.facts.spec_call(span)
    }

    /// What the call at `span` is, where it reaches no declaration.
    #[verifier::opaque]
    pub open spec fn builtin_at(self, span: Span) -> Option<BuiltinCall> {
        self.context.facts.spec_builtin(span)
    }

    /// The protocol of an operator and its method.
    #[verifier::opaque]
    pub open spec fn protocol(self, op: BinaryOp) -> Option<(Seq<char>, Seq<char>)> {
        self.context.facts.spec_protocol_of(op)
    }

    /// Whether something takes the address of a name.
    #[verifier::opaque]
    pub open spec fn is_addressed(self, name: Seq<char>) -> bool {
        self.context.facts.spec_addressed(name)
    }

    /// The type the checker gave the expression at `span`, where it gave one and
    /// a value of it is made of something.
    #[verifier::opaque]
    pub open spec fn maybe_recorded(self, span: Span) -> Option<TyView> {
        match self.context.facts.spec_type_of(span) {
            Some(ty) => match converted(ty, self.context.ids) {
                Ok(held) => Some(held),
                Err(_) => None,
            },
            None => None,
        }
    }

    /// The type an expression definitely has, where it has one.
    #[verifier::opaque]
    pub open spec fn known_type(self, expr: Expr) -> Option<TyView> {
        match (match expr.kind {
            ExprKind::Name(name) => match self.lookup(name@) {
                Some(var) => self.held(var),
                None => None,
            },
            _ => None,
        }) {
            Some(value) => {
                let held = self.type_at(value);
                match optional_inner_view(held) {
                    Some(inner) => if self.maybe_recorded(expr.span) == Some(inner) {
                        Some(inner)
                    } else {
                        Some(held)
                    },
                    None => Some(held),
                }
            },
            None => match self.context.facts.spec_type_of(expr.span) {
                Some(ty) => if ty is IntegerLiteral || ty is FloatLiteral || ty is SequenceLiteral
                    || ty is Unresolved {
                    None
                } else {
                    self.maybe_recorded(expr.span)
                },
                None => None,
            },
        }
    }

    /// The fields a type stores, in the order it declares them.
    #[verifier::opaque]
    pub open spec fn fields_of(self, ty: TyView) -> Option<Seq<(Seq<char>, TyView)>> {
        fields_in(self.context.program, ty)
    }

    /// Where a stored field of a type sits.
    #[verifier::opaque]
    pub open spec fn field_index(self, ty: TyView, name: Seq<char>) -> Option<u32> {
        match fields_in(self.context.program, ty) {
            Some(fields) => field_at_view(fields, name),
            None => None,
        }
    }

    /// What a variant carries, in the order it is declared, with the arguments
    /// the type carries where its parameters were.
    #[verifier::opaque]
    pub open spec fn payload_of(self, ty: TyView, variant: u32) -> Option<Seq<TyView>> {
        match args_of_view(ty, Builtin::Result) {
            Some(args) => match ty_at_view(args, variant as nat) {
                Some(held) => Some(seq![held]),
                None => None,
            },
            None => match payload_in(self.context.program, ty, variant) {
                Some(fields) => Some(field_types(fields)),
                None => None,
            },
        }
    }

    /// The names of what a variant carries, in the order it declares them.
    #[verifier::opaque]
    pub open spec fn payload_names(self, ty: TyView, variant: u32) -> Option<Seq<Seq<char>>> {
        match payload_in(self.context.program, ty, variant) {
            Some(fields) => Some(field_names(fields)),
            None => None,
        }
    }

    /// The tag of the variant a name names, where the type is an enum with one.
    #[verifier::opaque]
    pub open spec fn variant_of(self, ty: TyView, name: Seq<char>) -> Option<u32> {
        variant_in(self.context.program, ty, name)
    }

    /// Whether a type has value semantics. A `ref struct` is one object every
    /// holder observes, so it is never copied.
    #[verifier::opaque]
    pub open spec fn is_value_struct(self, ty: TyView) -> bool {
        match ty {
            TyView::Array(_, _) => true,
            TyView::Named { id, args } => match nominal_of(self.context.program, id) {
                Some(nominal) => match nominal.shape {
                    ShapeView::Struct(structure) => !structure.reference,
                    _ => false,
                },
                None => false,
            },
            _ => false,
        }
    }

    /// The interface a type names, if it names one.
    #[verifier::opaque]
    pub open spec fn interface_id(self, ty: TyView) -> Option<TypeId> {
        match ty {
            TyView::Named { id, args } => match nominal_of(self.context.program, id) {
                Some(nominal) => if nominal.shape is Interface {
                    Some(id)
                } else {
                    None
                },
                None => None,
            },
            _ => None,
        }
    }

    /// Whether a method of an interface may throw.
    #[verifier::opaque]
    pub open spec fn method_throws(self, method: MethodId) -> bool {
        match nominal_of(self.context.program, method.interface) {
            Some(nominal) => match nominal.shape {
                ShapeView::Interface(interface) => (method.slot as int) < interface.methods.len()
                    && interface.methods[method.slot as int].throws,
                _ => false,
            },
            None => false,
        }
    }

    /// Whether a method of an interface is asynchronous.
    #[verifier::opaque]
    pub open spec fn method_waits(self, method: MethodId) -> bool {
        match nominal_of(self.context.program, method.interface) {
            Some(nominal) => match nominal.shape {
                ShapeView::Interface(interface) => (method.slot as int) < interface.methods.len()
                    && interface.methods[method.slot as int].asynchronous,
                _ => false,
            },
            None => false,
        }
    }

    /// The property a name names on a type, if it names one.
    pub open spec fn property_of(self, ty: TyView, name: Seq<char>) -> Option<PropertyView<'a>> {
        match named_id_view(ty) {
            Some(id) => property_from(self.context.properties, id, name, 0),
            None => None,
        }
    }

    /// Whether a name names a property of a type.
    #[verifier::opaque]
    pub open spec fn has_property(self, ty: TyView, name: Seq<char>) -> bool {
        self.property_of(ty, name) is Some
    }

    /// The function a read of a property goes through, and what it gives back.
    #[verifier::opaque]
    pub open spec fn getter(self, ty: TyView, name: Seq<char>) -> Option<(FuncId, TyView)> {
        match ty {
            TyView::Named { id, args } => match self.property_of(ty, name) {
                Some(held) => match nominal_of(self.context.program, id) {
                    Some(nominal) => Some(
                        (held.get, held.ty.substitute(nominal.type_params, args)),
                    ),
                    None => None,
                },
                None => None,
            },
            _ => None,
        }
    }

    /// The function a write of a property goes through.
    #[verifier::opaque]
    pub open spec fn setter(self, ty: TyView, name: Seq<char>) -> Option<FuncId> {
        match self.property_of(ty, name) {
            Some(held) => held.set,
            None => None,
        }
    }

    /// The default written beside a field of a type.
    #[verifier::opaque]
    pub open spec fn default_for(self, ty: TyView, field: u32) -> Option<Expr> {
        match named_id_view(ty) {
            Some(id) => default_from(self.context.defaults, id, field, 0),
            None => None,
        }
    }

    /// The module-level constant of a name: where it is declared, and its
    /// initializer.
    #[verifier::opaque]
    pub open spec fn constant_of(self, name: Seq<char>) -> Option<(Span, Expr)> {
        constant_among(
            self.context.constants,
            self.context.module,
            name,
            self.context.constants.len(),
        )
    }

    /// The function a declaration became.
    #[verifier::opaque]
    pub open spec fn callee_of(self, declaration: Span) -> Option<CalleeView<'a>> {
        recorded_at(self.context.callees, declaration)
    }

    /// The interface method a declaration stands for.
    #[verifier::opaque]
    pub open spec fn virtual_of(self, declaration: Span) -> Option<MethodId> {
        recorded_at(self.context.virtuals, declaration)
    }

    /// What fills the type parameters of the call at `span`, where the checker
    /// worked out every one of them.
    #[verifier::opaque]
    pub open spec fn type_args(self, span: Span, wanted: nat) -> Option<Seq<TyView>> {
        match self.context.facts.spec_type_args(span) {
            Some(args) => if args@.len() == wanted {
                match converted_each(args@, self.context.ids, args@.len()) {
                    Ok(held) => Some(held),
                    Err(_) => None,
                }
            } else {
                None
            },
            None => None,
        }
    }

    /// What fills the type parameters of a function that has `wanted` of them.
    #[verifier::opaque]
    pub open spec fn generic_args(self, span: Span, wanted: nat) -> Option<Seq<TyView>> {
        if wanted == 0 {
            Some(Seq::empty())
        } else {
            self.type_args(span, wanted)
        }
    }

    /// The type arguments of the collection a value holds.
    #[verifier::opaque]
    pub open spec fn collection_args(self, receiver: Value) -> Seq<TyView> {
        match builtin_args_view(self.type_at(receiver)) {
            Some(args) => args,
            None => Seq::empty(),
        }
    }
}

/// A function that reads a property, and what it gives back.
pub open spec fn maybe_getter(held: Option<(FuncId, Ty)>) -> Option<(FuncId, TyView)> {
    match held {
        Some(found) => Some((found.0, found.1@)),
        None => None,
    }
}

/// What an optional list of names spells.
pub open spec fn maybe_names(held: Option<Vec<String>>) -> Option<Seq<Seq<char>>> {
    match held {
        Some(found) => Some(names(found@)),
        None => None,
    }
}

impl<'a> Body<'a> {
    /// The declaration the call at `span` reaches.
    pub fn reached(&self, span: Span) -> (found: Option<Span>)
        ensures
            found == self@.reached(span),
    {
        proof {
            reveal(BodyView::reached);
        }
        self.context.facts.call(span)
    }

    /// What the call at `span` is, where it reaches no declaration.
    pub fn builtin_at(&self, span: Span) -> (found: Option<BuiltinCall>)
        ensures
            found == self@.builtin_at(span),
    {
        proof {
            reveal(BodyView::builtin_at);
        }
        self.context.facts.builtin(span)
    }

    /// The protocol of an operator and its method.
    pub fn protocol_method(&self, op: BinaryOp) -> (found: Option<
        &'a ProtocolMethod,
    >)
        ensures
            match found {
                Some(held) => self@.protocol(op) == Some((held.protocol@, held.method@)),
                None => self@.protocol(op) is None,
            },
    {
        proof {
            reveal(BodyView::protocol);
        }
        self.context.facts.protocol_of(op)
    }

    /// Whether something takes the address of a name.
    pub fn is_addressed(&self, name: &str) -> (addressed: bool)
        ensures
            addressed == self@.is_addressed(name@),
    {
        proof {
            reveal(BodyView::is_addressed);
        }
        self.context.facts.is_addressed(name)
    }

    /// The type the checker gave the expression at `span`, where it gave one and
    /// a value of it is made of something.
    pub fn maybe_recorded(&self, span: Span) -> (found: Option<Ty>)
        ensures
            maybe_ty(found) == self@.maybe_recorded(span),
    {
        proof {
            reveal(BodyView::maybe_recorded);
        }
        match self.context.facts.type_of(span) {
            Some(ty) => match convert(ty, self.context.ids) {
                Ok(held) => Some(held),
                Err(_) => None,
            },
            None => None,
        }
    }

    /// The type an expression definitely has, where it has one.
    pub fn known_type(&self, expr: &Expr) -> (found: Option<Ty>)
        ensures
            maybe_ty(found) == self@.known_type(*expr),
    {
        proof {
            reveal(BodyView::known_type);
        }
        let bound = match &expr.kind {
            ExprKind::Name(name) => match self.lookup(name.as_str()) {
                Some(var) => self.held(var),
                None => None,
            },
            _ => None,
        };
        match bound {
            Some(value) => {
                let held = self.type_at(value);
                match optional_inner(&held) {
                    Some(inner) => if is_ty(
                        &self.maybe_recorded(expr.span),
                        &inner,
                    ) {
                        Some(inner)
                    } else {
                        Some(held)
                    },
                    None => Some(held),
                }
            },
            None => match self.context.facts.type_of(expr.span) {
                Some(ty) => match ty {
                    Type::IntegerLiteral => None,
                    Type::FloatLiteral => None,
                    Type::SequenceLiteral(_) => None,
                    Type::Unresolved => None,
                    _ => self.maybe_recorded(expr.span),
                },
                None => None,
            },
        }
    }

    /// The fields a type stores, in the order it declares them.
    pub fn fields_of(&self, ty: &Ty) -> (found: Option<Vec<(String, Ty)>>)
        ensures
            maybe_fields(found) == self@.fields_of(ty@),
    {
        proof {
            reveal(BodyView::fields_of);
        }
        match ty {
            Ty::Named { id, args } => match find_nominal(self.context.program, *id) {
                Some(nominal) => match &nominal.shape {
                    Shape::Struct(structure) => Some(
                        fill_fields(&structure.fields, &nominal.type_params, args),
                    ),
                    _ => None,
                },
                None => None,
            },
            _ => record_fields(ty),
        }
    }

    /// Where a stored field of a type sits.
    pub fn field_index(&self, ty: &Ty, name: &str) -> (found: Option<u32>)
        ensures
            found == self@.field_index(ty@, name@),
    {
        proof {
            reveal(BodyView::field_index);
            reveal(BodyView::fields_of);
        }
        match self.fields_of(ty) {
            Some(fields) => field_at(&fields, name),
            None => None,
        }
    }

    fn payload_fields(&self, ty: &Ty, variant: u32) -> (found: Option<Vec<(String, Ty)>>)
        ensures
            maybe_fields(found) == payload_in(self@.context.program, ty@, variant),
    {
        match ty {
            Ty::Named { id, args } => match find_nominal(self.context.program, *id) {
                Some(nominal) => match &nominal.shape {
                    Shape::Enum(enumeration) => if (variant as usize)
                        < enumeration.variants.len() {
                        let held = &enumeration.variants[variant as usize];
                        assert(enumeration@.variants[variant as int] == held@);
                        Some(fill_fields(&held.fields, &nominal.type_params, args))
                    } else {
                        None
                    },
                    _ => None,
                },
                None => None,
            },
            _ => None,
        }
    }

    /// What a variant carries, in the order it is declared, with the arguments
    /// the type carries where its parameters were.
    pub fn payload_of(&self, ty: &Ty, variant: u32) -> (found: Option<Vec<Ty>>)
        ensures
            maybe_tys(found) == self@.payload_of(ty@, variant),
    {
        proof {
            reveal(BodyView::payload_of);
        }
        match args_of(ty, Builtin::Result) {
            Some(args) => match ty_at(&args, variant as usize) {
                Some(held) => {
                    let mut one: Vec<Ty> = Vec::new();
                    one.push(held);
                    assert(tys(one@) =~= seq![held@]);
                    Some(one)
                },
                None => None,
            },
            None => match self.payload_fields(ty, variant) {
                Some(fields) => {
                    let mut types: Vec<Ty> = Vec::new();
                    let mut i: usize = 0;
                    while i < fields.len()
                        invariant
                            i <= fields.len(),
                            types@.len() == i,
                            forall|k: int| 0 <= k < i ==> (#[trigger] types@[k])@ == fields@[k].1@,
                        decreases fields.len() - i,
                    {
                        types.push(fields[i].1.clone());
                        i += 1;
                    }
                    assert(tys(types@) =~= field_types(named_tys(fields@)));
                    Some(types)
                },
                None => None,
            },
        }
    }

    /// The names of what a variant carries, in the order it declares them.
    pub fn payload_names(&self, ty: &Ty, variant: u32) -> (found: Option<Vec<String>>)
        ensures
            maybe_names(found) == self@.payload_names(ty@, variant),
    {
        proof {
            reveal(BodyView::payload_names);
        }
        match self.payload_fields(ty, variant) {
            Some(fields) => {
                let mut held: Vec<String> = Vec::new();
                let mut i: usize = 0;
                while i < fields.len()
                    invariant
                        i <= fields.len(),
                        held@.len() == i,
                        forall|k: int| 0 <= k < i ==> (#[trigger] held@[k])@ == fields@[k].0@,
                    decreases fields.len() - i,
                {
                    held.push(fields[i].0.clone());
                    i += 1;
                }
                assert(names(held@) =~= field_names(named_tys(fields@)));
                Some(held)
            },
            None => None,
        }
    }

    /// The tag of the variant a name names, where the type is an enum with one.
    pub fn variant_of(&self, ty: &Ty, name: &str) -> (found: Option<u32>)
        ensures
            found == self@.variant_of(ty@, name@),
    {
        proof {
            reveal(BodyView::variant_of);
        }
        match ty {
            Ty::Builtin { kind, .. } => if *kind == Builtin::Result {
                if same_text(name, "Ok") {
                    Some(0)
                } else if same_text(name, "Err") {
                    Some(1)
                } else {
                    None
                }
            } else {
                None
            },
            Ty::Named { id, .. } => match find_nominal(self.context.program, *id) {
                Some(nominal) => match &nominal.shape {
                    Shape::Enum(enumeration) => find_variant(&enumeration.variants, name),
                    _ => None,
                },
                None => None,
            },
            _ => None,
        }
    }

    /// Whether a type has value semantics.
    pub fn is_value_struct(&self, ty: &Ty) -> (by_value: bool)
        ensures
            by_value == self@.is_value_struct(ty@),
    {
        proof {
            reveal(BodyView::is_value_struct);
        }
        match ty {
            Ty::Array(_, _) => true,
            Ty::Named { id, .. } => match find_nominal(self.context.program, *id) {
                Some(nominal) => match &nominal.shape {
                    Shape::Struct(structure) => !structure.reference,
                    _ => false,
                },
                None => false,
            },
            _ => false,
        }
    }

    /// The interface a type names, if it names one.
    pub fn interface_id(&self, ty: &Ty) -> (found: Option<TypeId>)
        ensures
            found == self@.interface_id(ty@),
    {
        proof {
            reveal(BodyView::interface_id);
        }
        match ty {
            Ty::Named { id, .. } => match find_nominal(self.context.program, *id) {
                Some(nominal) => match &nominal.shape {
                    Shape::Interface(_) => Some(*id),
                    _ => None,
                },
                None => None,
            },
            _ => None,
        }
    }

    /// Whether a method of an interface may throw.
    pub fn method_throws(&self, method: MethodId) -> (throws: bool)
        ensures
            throws == self@.method_throws(method),
    {
        proof {
            reveal(BodyView::method_throws);
        }
        match find_nominal(self.context.program, method.interface) {
            Some(nominal) => match &nominal.shape {
                Shape::Interface(interface) => if (method.slot as usize)
                    < interface.methods.len() {
                    assert(interface@.methods[method.slot as int]
                        == interface.methods@[method.slot as int]@);
                    interface.methods[method.slot as usize].throws
                } else {
                    false
                },
                _ => false,
            },
            None => false,
        }
    }

    /// Whether a method of an interface is asynchronous.
    pub fn method_waits(&self, method: MethodId) -> (waits: bool)
        ensures
            waits == self@.method_waits(method),
    {
        proof {
            reveal(BodyView::method_waits);
        }
        match find_nominal(self.context.program, method.interface) {
            Some(nominal) => match &nominal.shape {
                Shape::Interface(interface) => if (method.slot as usize)
                    < interface.methods.len() {
                    assert(interface@.methods[method.slot as int]
                        == interface.methods@[method.slot as int]@);
                    interface.methods[method.slot as usize].asynchronous
                } else {
                    false
                },
                _ => false,
            },
            None => false,
        }
    }

    fn property_of(&self, ty: &Ty, name: &str) -> (found: Option<&'a Property<'a>>)
        ensures
            match found {
                Some(held) => self@.property_of(ty@, name@) == Some(held@),
                None => self@.property_of(ty@, name@) is None,
            },
    {
        match named_id(ty) {
            Some(id) => {
                let properties = self.context.properties;
                let mut i: usize = 0;
                while i < properties.len()
                    invariant
                        i <= properties.len(),
                        views(properties@) == self@.context.properties,
                        named_id_view(ty@) == Some(id),
                        self@.property_of(ty@, name@) == property_from(
                            views(properties@),
                            id,
                            name@,
                            i as nat,
                        ),
                    decreases properties.len() - i,
                {
                    assert(views(properties@)[i as int] == properties@[i as int]@);
                    if properties[i].owner == id && same_text(
                        properties[i].name.as_str(),
                        name,
                    ) {
                        return Some(&properties[i]);
                    }
                    i += 1;
                }
                None
            },
            None => None,
        }
    }

    /// Whether a name names a property of a type.
    pub fn has_property(&self, ty: &Ty, name: &str) -> (has: bool)
        ensures
            has == self@.has_property(ty@, name@),
    {
        proof {
            reveal(BodyView::has_property);
        }
        self.property_of(ty, name).is_some()
    }

    /// The function a read of a property goes through, and what it gives back.
    pub fn getter(&self, ty: &Ty, name: &str) -> (found: Option<(FuncId, Ty)>)
        ensures
            maybe_getter(found) == self@.getter(ty@, name@),
    {
        proof {
            reveal(BodyView::getter);
        }
        match ty {
            Ty::Named { id, args } => match self.property_of(ty, name) {
                Some(held) => match find_nominal(self.context.program, *id) {
                    Some(nominal) => Some(
                        (held.get, held.ty.substitute(&nominal.type_params, args)),
                    ),
                    None => None,
                },
                None => None,
            },
            _ => None,
        }
    }

    /// The function a write of a property goes through.
    pub fn setter(&self, ty: &Ty, name: &str) -> (found: Option<FuncId>)
        ensures
            found == self@.setter(ty@, name@),
    {
        proof {
            reveal(BodyView::setter);
        }
        match self.property_of(ty, name) {
            Some(held) => held.set,
            None => None,
        }
    }

    /// The default written beside a field of a type.
    pub fn default_for(&self, ty: &Ty, field: u32) -> (found: Option<&'a Expr>)
        ensures
            match found {
                Some(held) => self@.default_for(ty@, field) == Some(*held),
                None => self@.default_for(ty@, field) is None,
            },
    {
        proof {
            reveal(BodyView::default_for);
        }
        match named_id(ty) {
            Some(id) => find_default(self.context.defaults, id, field),
            None => None,
        }
    }

    /// The module-level constant of a name: where it is declared, and its
    /// initializer.
    pub fn constant_of(&self, name: &str) -> (found: Option<(Span, &'a Expr)>)
        ensures
            match found {
                Some(held) => self@.constant_of(name@) == Some((held.0, *held.1)),
                None => self@.constant_of(name@) is None,
            },
    {
        proof {
            reveal(BodyView::constant_of);
        }
        find_constant(self.context.constants, self.context.module, name)
    }

    /// The function a declaration became.
    pub fn callee_of(&self, declaration: Span) -> (found: Option<&'a Callee<'a>>)
        ensures
            match found {
                Some(held) => self@.callee_of(declaration) == Some(held@),
                None => self@.callee_of(declaration) is None,
            },
    {
        proof {
            reveal(BodyView::callee_of);
        }
        proof {
            mapped_records(self.context.callees@, declaration);
        }
        find_recorded(self.context.callees, declaration)
    }

    /// The interface method a declaration stands for.
    pub fn virtual_of(&self, declaration: Span) -> (found: Option<MethodId>)
        ensures
            found == self@.virtual_of(declaration),
    {
        proof {
            reveal(BodyView::virtual_of);
        }
        match find_recorded(self.context.virtuals, declaration) {
            Some(held) => Some(*held),
            None => None,
        }
    }

    /// What fills the type parameters of the call at `span`, where the checker
    /// worked out every one of them.
    pub fn type_args(&self, span: Span, wanted: usize) -> (found: Option<Vec<Ty>>)
        ensures
            maybe_tys(found) == self@.type_args(span, wanted as nat),
    {
        proof {
            reveal(BodyView::type_args);
        }
        match self.context.facts.type_args(span) {
            Some(args) => if args.len() == wanted {
                match each(args, self.context.ids) {
                    Ok(held) => Some(held),
                    Err(_) => None,
                }
            } else {
                None
            },
            None => None,
        }
    }

    /// What fills the type parameters of a function that has `wanted` of them.
    pub fn generic_args(&self, span: Span, wanted: usize) -> (found: Option<Vec<Ty>>)
        ensures
            maybe_tys(found) == self@.generic_args(span, wanted as nat),
    {
        proof {
            reveal(BodyView::generic_args);
        }
        if wanted == 0 {
            Some(no_tys())
        } else {
            self.type_args(span, wanted)
        }
    }

    /// The type arguments of the collection a value holds.
    pub fn collection_args(&self, receiver: Value) -> (args: Vec<Ty>)
        ensures
            tys(args@) == self@.collection_args(receiver),
    {
        proof {
            reveal(BodyView::collection_args);
        }
        match builtin_args(&self.type_at(receiver)) {
            Some(args) => args,
            None => {
                let none: Vec<Ty> = Vec::new();
                assert(tys(none@) =~= Seq::empty());
                none
            },
        }
    }
}

/// What is recorded of a function is what it says.
pub proof fn mapped_records<'a>(held: Seq<(Span, Callee<'a>)>, span: Span)
    ensures
        recorded_at(callee_views(held), span) == (match recorded_at(held, span) {
            Some(callee) => Some(callee@),
            None => None,
        }),
    decreases held.len(),
{
    if held.len() > 0 {
        assert(callee_views(held)[0] == (held[0].0, held[0].1@));
        assert(callee_views(held).skip(1) =~= callee_views(held.skip(1)));
        mapped_records(held.skip(1), span);
    }
}

fn find_variant(variants: &Vec<Variant>, name: &str) -> (found: Option<u32>)
    ensures
        found == (match variant_from(views(variants@), name@, 0) {
            Some(at) => if at <= u32::MAX {
                Some(at as u32)
            } else {
                None
            },
            None => None,
        }),
{
    let mut i: usize = 0;
    while i < variants.len()
        invariant
            i <= variants.len(),
            variant_from(views(variants@), name@, 0) == variant_from(
                views(variants@),
                name@,
                i as nat,
            ),
        decreases variants.len() - i,
    {
        assert(views(variants@)[i as int] == variants@[i as int]@);
        if same_text(variants[i].name.as_str(), name) {
            return if i as u64 <= 0xffff_ffff {
                Some(i as u32)
            } else {
                None
            };
        }
        i += 1;
    }
    None
}

fn find_default<'a>(defaults: &Vec<FieldDefault<'a>>, owner: TypeId, field: u32) -> (found: Option<
    &'a Expr,
>)
    ensures
        match found {
            Some(held) => default_from(defaults@, owner, field, 0) == Some(*held),
            None => default_from(defaults@, owner, field, 0) is None,
        },
{
    let mut i: usize = 0;
    while i < defaults.len()
        invariant
            i <= defaults.len(),
            default_from(defaults@, owner, field, 0) == default_from(
                defaults@,
                owner,
                field,
                i as nat,
            ),
        decreases defaults.len() - i,
    {
        if defaults[i].owner == owner && defaults[i].field == field {
            return Some(defaults[i].value);
        }
        i += 1;
    }
    None
}

fn find_constant<'a>(
    constants: &Vec<Constant<'a>>,
    module: ModuleId,
    name: &str,
) -> (found: Option<(Span, &'a Expr)>)
    ensures
        match found {
            Some(held) => constant_among(constants@, module, name@, constants@.len()) == Some(
                (held.0, *held.1),
            ),
            None => constant_among(constants@, module, name@, constants@.len()) is None,
        },
{
    let mut i: usize = constants.len();
    while i > 0
        invariant
            i <= constants.len(),
            constant_among(constants@, module, name@, constants@.len()) == constant_among(
                constants@,
                module,
                name@,
                i as nat,
            ),
        decreases i,
    {
        if constants[i - 1].module == module && same_text(
            constants[i - 1].name.as_str(),
            name,
        ) {
            return Some((constants[i - 1].span, constants[i - 1].value));
        }
        i -= 1;
    }
    None
}

} // verus!
