//! What the types in play ask for.

use vstd::prelude::*;

use crate::ast::{BinaryOp as AstBinary, Expr, FieldInit, UnaryOp as AstUnary};
use crate::inst::{Const, ConstView, FloatLiteral, InstKind, InstKindView, UnaryOp, Value};
use crate::span::Span;
use crate::text::{names, same_text};
use crate::ty::{maybe_ty, named_tys, tys, Builtin, IntTy, Ty, TyView};

use super::kinds::{
    args_of, args_of_view, array_element, array_element_view, builtin_args, builtin_args_view,
    builtin_kind, builtin_kind_view, builtin_over, builtin_over_view, is_list_kind,
    is_list_kind_view, is_map_kind, is_map_kind_view, is_set_kind, is_set_kind_view, maybe_tys,
    opt_text, opt_ty, optional, optional_inner, optional_view, pointer_target,
    pointer_target_view, tuple_members, tuple_members_view, ty_at, ty_at_view,
};
use super::queries::{field_at, field_at_view, name_at, name_at_view};

verus! {

/// What context asked for, or another type where it asked for nothing.
pub open spec fn asked_or_view(wanted: Option<TyView>, otherwise: TyView) -> TyView {
    match wanted {
        Some(ty) => ty,
        None => otherwise,
    }
}

/// What context asked for, or another type where it asked for nothing.
pub fn asked_or(wanted: Option<&Ty>, otherwise: Ty) -> (ty: Ty)
    ensures
        ty@ == asked_or_view(opt_ty(wanted), otherwise@),
{
    match wanted {
        Some(ty) => ty.clone(),
        None => otherwise,
    }
}

/// The type of a record literal: what the checker gave it, or what context asked
/// for where that is nothing.
pub open spec fn record_type_view(recorded: TyView, wanted: Option<TyView>) -> Option<TyView> {
    if recorded == TyView::Never {
        wanted
    } else {
        Some(recorded)
    }
}

/// The type of a record literal.
pub fn record_type(recorded: Ty, wanted: Option<&Ty>) -> (found: Option<Ty>)
    ensures
        maybe_ty(found) == record_type_view(recorded@, opt_ty(wanted)),
{
    if recorded.same(&Ty::Never) {
        match wanted {
            Some(ty) => Some(ty.clone()),
            None => None,
        }
    } else {
        Some(recorded)
    }
}

/// Whether an optional type is a function type.
pub open spec fn is_function_view(held: Option<TyView>) -> bool {
    match held {
        Some(ty) => ty is Function,
        None => false,
    }
}

/// Whether an optional type is a function type.
pub fn is_function(held: &Option<Ty>) -> (function: bool)
    ensures
        function == is_function_view(maybe_ty(*held)),
{
    match held {
        Some(ty) => match ty {
            Ty::Function { .. } => true,
            _ => false,
        },
        None => false,
    }
}

/// The first of two optional types that is there.
pub open spec fn first_of_view(first: Option<TyView>, second: Option<TyView>) -> Option<TyView> {
    match first {
        Some(_) => first,
        None => second,
    }
}

/// The first of two optional types that is there.
pub fn first_of(first: &Option<Ty>, second: Option<Ty>) -> (found: Option<Ty>)
    ensures
        maybe_ty(found) == first_of_view(maybe_ty(*first), maybe_ty(second)),
{
    match first {
        Some(ty) => Some(ty.clone()),
        None => second,
    }
}

/// Whether an optional type is optional itself.
pub open spec fn is_optional_ty_view(held: Option<TyView>) -> bool {
    match held {
        Some(ty) => ty is Optional,
        None => false,
    }
}

/// Whether an optional type is optional itself.
pub fn is_optional_ty(held: &Option<Ty>) -> (found: bool)
    ensures
        found == is_optional_ty_view(maybe_ty(*held)),
{
    match held {
        Some(ty) => optional_inner(ty).is_some(),
        None => false,
    }
}

/// The tag of the variant of `Result` that is written, where one is.
pub open spec fn result_tag_view(written: Seq<char>, name: Seq<char>) -> Option<u32> {
    if written != "Result"@ {
        None
    } else if name == "Ok"@ {
        Some(0)
    } else if name == "Err"@ {
        Some(1)
    } else {
        None
    }
}

/// The tag of the variant of `Result` that is written, where one is.
pub fn result_tag(written: &str, name: &str) -> (tag: Option<u32>)
    ensures
        tag == result_tag_view(written@, name@),
{
    if !same_text(written, "Result") {
        None
    } else if same_text(name, "Ok") {
        Some(0)
    } else if same_text(name, "Err") {
        Some(1)
    } else {
        None
    }
}

/// The name of a pointer's method, and what the pointer points at.
pub open spec fn pointed_view(method: Option<Seq<char>>, known: Option<TyView>) -> Option<
    (Seq<char>, TyView),
> {
    match method {
        Some(name) => match known {
            Some(ty) => match pointer_target_view(ty) {
                Some(target) => Some((name, target)),
                None => None,
            },
            None => None,
        },
        None => None,
    }
}

/// A named type, by what it says.
pub open spec fn maybe_pointed(found: Option<(&str, Ty)>) -> Option<(Seq<char>, TyView)> {
    match found {
        Some(held) => Some((held.0@, held.1@)),
        None => None,
    }
}

/// The name of a pointer's method, and what the pointer points at.
pub fn pointed<'b>(method: Option<&'b str>, known: &Option<Ty>) -> (found: Option<(&'b str, Ty)>)
    ensures
        maybe_pointed(found) == pointed_view(opt_text(method), maybe_ty(*known)),
{
    match method {
        Some(name) => match known {
            Some(ty) => match pointer_target(ty) {
                Some(target) => Some((name, target)),
                None => None,
            },
            None => None,
        },
        None => None,
    }
}

/// What a call through a function type gives back.
pub open spec fn declared_result_view(asynchronous: bool, result: TyView) -> TyView {
    if asynchronous {
        builtin_over_view(Builtin::Task, result)
    } else {
        result
    }
}

/// What a call through a function type gives back.
pub fn declared_result(asynchronous: bool, result: Ty) -> (ty: Ty)
    ensures
        ty@ == declared_result_view(asynchronous, result@),
{
    if asynchronous {
        builtin_over(Builtin::Task, result)
    } else {
        result
    }
}

/// What an element of a collection is looked up by, where it can be checked.
pub open spec fn looked_up_by_view(kind: Option<Builtin>, args: Seq<TyView>) -> Option<TyView> {
    if is_map_kind_view(kind) {
        ty_at_view(args, 0)
    } else if is_list_kind_view(kind) {
        Some(TyView::integer())
    } else {
        None
    }
}

/// What an element of a collection is looked up by, where it can be checked.
pub fn looked_up_by(kind: Option<Builtin>, args: &Vec<Ty>) -> (found: Option<Ty>)
    ensures
        maybe_ty(found) == looked_up_by_view(kind, tys(args@)),
{
    if is_map_kind(kind) {
        ty_at(args, 0)
    } else if is_list_kind(kind) {
        Some(Ty::integer())
    } else {
        None
    }
}

/// The error of a `Result`.
pub open spec fn result_error_view(ty: TyView) -> Option<TyView> {
    match args_of_view(ty, Builtin::Result) {
        Some(args) => ty_at_view(args, 1),
        None => None,
    }
}

/// The error of a `Result`.
pub fn result_error(ty: &Ty) -> (found: Option<Ty>)
    ensures
        maybe_ty(found) == result_error_view(ty@),
{
    match args_of(ty, Builtin::Result) {
        Some(args) => ty_at(&args, 1),
        None => None,
    }
}

/// Whether a type is read by an index.
pub open spec fn is_indexed_view(ty: TyView) -> bool {
    ty is Builtin || ty is Array || ty == TyView::Bytes
}

/// Whether a type is read by an index.
pub fn is_indexed(ty: &Ty) -> (indexed: bool)
    ensures
        indexed == is_indexed_view(ty@),
{
    match ty {
        Ty::Builtin { .. } => true,
        Ty::Array(_, _) => true,
        Ty::Bytes => true,
        _ => false,
    }
}

/// What a container is keyed by. A list and an array are keyed by position, and
/// only a map states what it is keyed by.
pub open spec fn index_type_view(ty: TyView) -> Option<TyView> {
    if is_map_kind_view(builtin_kind_view(ty)) {
        match builtin_args_view(ty) {
            Some(args) => ty_at_view(args, 0),
            None => None,
        }
    } else {
        Some(TyView::integer())
    }
}

/// What a container is keyed by.
pub fn index_type(ty: &Ty) -> (found: Option<Ty>)
    ensures
        maybe_ty(found) == index_type_view(ty@),
{
    if is_map_kind(builtin_kind(ty)) {
        match builtin_args(ty) {
            Some(args) => ty_at(&args, 0),
            None => None,
        }
    } else {
        Some(Ty::integer())
    }
}

/// Whether a kind of builtin type holds its elements in order.
pub open spec fn is_sequence_view(kind: Option<Builtin>) -> bool {
    is_list_kind_view(kind) || kind == Some(Builtin::Slice)
}

/// Whether a kind of builtin type holds its elements in order.
pub fn is_sequence(kind: Option<Builtin>) -> (sequence: bool)
    ensures
        sequence == is_sequence_view(kind),
{
    is_list_kind(kind) || match kind {
        Some(held) => held == Builtin::Slice,
        None => false,
    }
}

/// What a read of a container gives back, which tells whether it was proved to
/// hold something. A map gives back an optional.
pub open spec fn element_stored_view(ty: TyView) -> Option<TyView> {
    match builtin_args_view(ty) {
        Some(args) => if is_map_kind_view(builtin_kind_view(ty)) {
            match ty_at_view(args, 1) {
                Some(value) => Some(optional_view(value)),
                None => None,
            }
        } else if is_sequence_view(builtin_kind_view(ty)) {
            ty_at_view(args, 0)
        } else {
            None
        },
        None => if ty == TyView::Bytes {
            Some(TyView::Int(IntTy::U8))
        } else {
            array_element_view(ty)
        },
    }
}

/// What a read of a container gives back.
pub fn element_stored(ty: &Ty) -> (found: Option<Ty>)
    ensures
        maybe_ty(found) == element_stored_view(ty@),
{
    match builtin_args(ty) {
        Some(args) => if is_map_kind(builtin_kind(ty)) {
            match ty_at(&args, 1) {
                Some(value) => Some(optional(value)),
                None => None,
            }
        } else if is_sequence(builtin_kind(ty)) {
            ty_at(&args, 0)
        } else {
            None
        },
        None => if ty.same(&Ty::Bytes) {
            Some(Ty::Int(IntTy::U8))
        } else {
            array_element(ty)
        },
    }
}

/// Whether an element of a type can be written.
pub open spec fn is_written_into_view(ty: TyView) -> bool {
    ty is Array || is_map_kind_view(builtin_kind_view(ty)) || builtin_kind_view(ty) == Some(
        Builtin::List,
    ) || builtin_kind_view(ty) == Some(Builtin::Slice)
}

/// Whether an element of a type can be written.
pub fn is_written_into(ty: &Ty) -> (written: bool)
    ensures
        written == is_written_into_view(ty@),
{
    match builtin_kind(ty) {
        Some(kind) => is_map_kind(Some(kind)) || kind == Builtin::List || kind == Builtin::Slice,
        None => array_element(ty).is_some(),
    }
}

/// What an element written into a container is.
pub open spec fn element_written_view(ty: TyView) -> Option<TyView> {
    match builtin_args_view(ty) {
        Some(args) => if is_map_kind_view(builtin_kind_view(ty)) {
            ty_at_view(args, 1)
        } else {
            ty_at_view(args, 0)
        },
        None => array_element_view(ty),
    }
}

/// What an element written into a container is.
pub fn element_written(ty: &Ty) -> (found: Option<Ty>)
    ensures
        maybe_ty(found) == element_written_view(ty@),
{
    match builtin_args(ty) {
        Some(args) => if is_map_kind(builtin_kind(ty)) {
            ty_at(&args, 1)
        } else {
            ty_at(&args, 0)
        },
        None => array_element(ty),
    }
}

/// What a sequence literal of a type holds.
pub open spec fn sequence_element_view(ty: TyView) -> Option<TyView> {
    match builtin_args_view(ty) {
        Some(args) => ty_at_view(args, 0),
        None => array_element_view(ty),
    }
}

/// What a sequence literal of a type holds.
pub fn sequence_element(ty: &Ty) -> (found: Option<Ty>)
    ensures
        maybe_ty(found) == sequence_element_view(ty@),
{
    match builtin_args(ty) {
        Some(args) => ty_at(&args, 0),
        None => array_element(ty),
    }
}

/// What a range counts in.
pub open spec fn range_element_view(ty: TyView) -> TyView {
    match builtin_args_view(ty) {
        Some(args) => match ty_at_view(args, 0) {
            Some(element) => element,
            None => TyView::Never,
        },
        None => TyView::Never,
    }
}

/// What a range counts in.
pub fn range_element(ty: &Ty) -> (element: Ty)
    ensures
        element@ == range_element_view(ty@),
{
    match builtin_args(ty) {
        Some(args) => match ty_at(&args, 0) {
            Some(element) => element,
            None => Ty::Never,
        },
        None => Ty::Never,
    }
}

/// The members of the tuple context asked for.
pub open spec fn tuple_asked_view(wanted: Option<TyView>) -> Option<Seq<TyView>> {
    match wanted {
        Some(ty) => tuple_members_view(ty),
        None => None,
    }
}

/// The members of the tuple context asked for.
pub fn tuple_asked(wanted: Option<&Ty>) -> (found: Option<Vec<Ty>>)
    ensures
        maybe_tys(found) == tuple_asked_view(opt_ty(wanted)),
{
    match wanted {
        Some(ty) => tuple_members(ty),
        None => None,
    }
}

/// Whether a name reads how long something is: `length` of a collection, or
/// `byteLength` of a string.
pub open spec fn reads_length_view(name: Seq<char>, ty: TyView) -> bool {
    let kind = builtin_kind_view(ty);
    (name == "length"@ && (is_list_kind_view(kind) || is_map_kind_view(kind) || is_set_kind_view(
        kind,
    ))) || (name == "byteLength"@ && ty == TyView::Str)
}

/// Whether a name reads how long something is.
pub fn reads_length(name: &str, ty: &Ty) -> (reads: bool)
    ensures
        reads == reads_length_view(name@, ty@),
{
    let kind = builtin_kind(ty);
    (same_text(name, "length") && (is_list_kind(kind) || is_map_kind(kind) || is_set_kind(kind)))
        || (same_text(name, "byteLength") && ty.same(&Ty::Str))
}

/// A floating-point literal.
pub open spec fn float_const_view(value: FloatLiteral) -> InstKindView {
    InstKindView::Const(ConstView::Float { bits: value.bits, text: value.text@ })
}

/// A floating-point literal.
pub fn float_const(value: &FloatLiteral) -> (kind: InstKind)
    ensures
        kind@ == float_const_view(*value),
{
    InstKind::Const(
        Const::Float(FloatLiteral { bits: value.bits, text: value.text.clone() }),
    )
}

/// A byte string.
pub open spec fn bytes_const_view(value: Vec<u8>) -> InstKindView {
    InstKindView::Const(ConstView::Bytes(value@))
}

/// A byte string.
pub fn bytes_const(value: &Vec<u8>) -> (kind: InstKind)
    ensures
        kind@ == bytes_const_view(*value),
{
    let copied = value.clone();
    assert(copied@ =~= value@);
    InstKind::Const(Const::Bytes(copied))
}

/// The instruction a unary operator written in source becomes.
pub open spec fn lowered_unary_view(op: AstUnary) -> UnaryOp {
    match op {
        AstUnary::Not => UnaryOp::Not,
        AstUnary::Negate => UnaryOp::Negate,
        AstUnary::BitNot => UnaryOp::BitNot,
    }
}

/// The instruction a unary operator written in source becomes.
pub fn lowered_unary(op: AstUnary) -> (lowered: UnaryOp)
    ensures
        lowered == lowered_unary_view(op),
{
    match op {
        AstUnary::Not => UnaryOp::Not,
        AstUnary::Negate => UnaryOp::Negate,
        AstUnary::BitNot => UnaryOp::BitNot,
    }
}

/// Whether an operator asks whether two values are equal, or not.
pub open spec fn is_equality_view(op: AstBinary) -> bool {
    op == AstBinary::Equal || op == AstBinary::NotEqual
}

/// Whether an operator asks whether two values are equal, or not.
pub fn is_equality(op: AstBinary) -> (equality: bool)
    ensures
        equality == is_equality_view(op),
{
    op == AstBinary::Equal || op == AstBinary::NotEqual
}

/// A value, or another where it is not there.
pub open spec fn value_or_view(value: Option<Value>, otherwise: Value) -> Value {
    match value {
        Some(held) => held,
        None => otherwise,
    }
}

/// A value, or another where it is not there.
pub fn value_or(value: Option<Value>, otherwise: Value) -> (held: Value)
    ensures
        held == value_or_view(value, otherwise),
{
    match value {
        Some(held) => held,
        None => otherwise,
    }
}

/// The declaration a compound assignment goes through, where its operator went
/// through a protocol and the target was read.
pub open spec fn overloaded_view(
    held: Option<Value>,
    op: Option<AstBinary>,
    declaration: Option<Span>,
    protocol: bool,
) -> Option<Span> {
    if held is Some && op is Some && protocol {
        declaration
    } else {
        None
    }
}

/// The declaration a compound assignment goes through.
pub fn overloaded(
    held: Option<Value>,
    op: Option<AstBinary>,
    declaration: Option<Span>,
    protocol: bool,
) -> (found: Option<Span>)
    ensures
        found == overloaded_view(held, op, declaration, protocol),
{
    if held.is_some() && op.is_some() && protocol {
        declaration
    } else {
        None
    }
}

/// What is passed to a method: the receiver, and what the call passes.
pub open spec fn received_view(takes: bool, receiver: Option<Value>, passed: Seq<Value>) -> Seq<
    Value,
> {
    match receiver {
        Some(object) => if takes {
            super::given::ahead_view(object, passed)
        } else {
            passed
        },
        None => passed,
    }
}

/// What is passed to a method.
pub fn received(takes: bool, receiver: Option<Value>, passed: Vec<Value>) -> (values: Vec<Value>)
    ensures
        values@ == received_view(takes, receiver, passed@),
{
    match receiver {
        Some(object) => if takes {
            super::given::ahead(object, &passed)
        } else {
            passed
        },
        None => passed,
    }
}

/// Which field each part of a literal fills.
pub open spec fn field_slots_view(declared: Seq<(Seq<char>, TyView)>, fields: Seq<FieldInit>) -> Seq<
    Option<usize>,
> {
    Seq::new(
        fields.len(),
        |i: int|
            match field_at_view(declared, fields[i].name@) {
                Some(at) => Some(at as usize),
                None => None,
            },
    )
}

/// Which field each part of a literal fills.
pub fn field_slots(declared: &Vec<(String, Ty)>, fields: &Vec<FieldInit>) -> (slots: Vec<
    Option<usize>,
>)
    ensures
        slots@ == field_slots_view(named_tys(declared@), fields@),
{
    let mut slots: Vec<Option<usize>> = Vec::new();
    let mut i: usize = 0;
    let ghost whole = field_slots_view(named_tys(declared@), fields@);
    while i < fields.len()
        invariant
            i <= fields.len(),
            whole == field_slots_view(named_tys(declared@), fields@),
            slots@.len() == i,
            forall|k: int| 0 <= k < i ==> #[trigger] slots@[k] == whole[k],
        decreases fields.len() - i,
    {
        let slot = match field_at(declared, fields[i].name.as_str()) {
            Some(at) => Some(at as usize),
            None => None,
        };
        slots.push(slot);
        i += 1;
    }
    assert(slots@ =~= whole);
    slots
}

/// Which part of a payload each part of a literal fills.
pub open spec fn named_slots_view(declared: Seq<Seq<char>>, fields: Seq<FieldInit>) -> Seq<
    Option<usize>,
> {
    Seq::new(
        fields.len(),
        |i: int|
            match name_at_view(declared, fields[i].name@) {
                Some(at) => Some(at as usize),
                None => None,
            },
    )
}

/// Which part of a payload each part of a literal fills.
pub fn named_slots(declared: &Vec<String>, fields: &Vec<FieldInit>) -> (slots: Vec<Option<usize>>)
    ensures
        slots@ == named_slots_view(names(declared@), fields@),
{
    let mut slots: Vec<Option<usize>> = Vec::new();
    let mut i: usize = 0;
    let ghost whole = named_slots_view(names(declared@), fields@);
    while i < fields.len()
        invariant
            i <= fields.len(),
            whole == named_slots_view(names(declared@), fields@),
            slots@.len() == i,
            forall|k: int| 0 <= k < i ==> #[trigger] slots@[k] == whole[k],
        decreases fields.len() - i,
    {
        let slot = match name_at(declared, fields[i].name.as_str()) {
            Some(at) => Some(at as usize),
            None => None,
        };
        slots.push(slot);
        i += 1;
    }
    assert(slots@ =~= whole);
    slots
}

/// The type of the field a part of a literal fills.
pub open spec fn field_wanted_view(
    declared: Seq<(Seq<char>, TyView)>,
    slots: Seq<Option<usize>>,
    index: nat,
) -> Option<TyView> {
    if index < slots.len() {
        match slots[index as int] {
            Some(slot) => if slot < declared.len() {
                Some(declared[slot as int].1)
            } else {
                None
            },
            None => None,
        }
    } else {
        None
    }
}

/// The type of the field a part of a literal fills.
pub fn field_wanted(declared: &Vec<(String, Ty)>, slots: &Vec<Option<usize>>, index: usize) -> (found:
    Option<Ty>)
    ensures
        maybe_ty(found) == field_wanted_view(named_tys(declared@), slots@, index as nat),
{
    if index < slots.len() {
        match slots[index] {
            Some(slot) => if slot < declared.len() {
                assert(named_tys(declared@)[slot as int].1 == declared@[slot as int].1@);
                Some(declared[slot].1.clone())
            } else {
                None
            },
            None => None,
        }
    } else {
        None
    }
}

/// An optional boxed expression by reference.
pub open spec fn boxed_view<'a>(value: Option<Box<Expr>>) -> Option<&'a Expr> {
    match value {
        Some(held) => Some(&*held),
        None => None,
    }
}

/// An optional boxed expression by reference.
pub fn boxed<'a>(value: &'a Option<Box<Expr>>) -> (found: Option<&'a Expr>)
    ensures
        found == boxed_view(*value),
{
    match value {
        Some(held) => Some(&**held),
        None => None,
    }
}

/// Whether the method a call names is `wanted`.
pub open spec fn is_method_view(method: Option<String>, wanted: Seq<char>) -> bool {
    match method {
        Some(name) => name@ == wanted,
        None => false,
    }
}

/// Whether the method a call names is `wanted`.
pub fn is_method(method: &Option<String>, wanted: &str) -> (found: bool)
    ensures
        found == is_method_view(*method, wanted@),
{
    match method {
        Some(name) => same_text(name.as_str(), wanted),
        None => false,
    }
}

} // verus!
