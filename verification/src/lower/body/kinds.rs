//! Telling types apart.

use vstd::prelude::*;

use crate::ast::BinaryOp as AstBinary;
use crate::inst::{BinaryOp, TargetView, Value};
use crate::program::{BlockId, FuncId};
use crate::text::{concat, concatenated, maybe_name, names};
use crate::ty::{clone_named_tys, clone_tys, named_tys, tys, Builtin, Ty, TyView, TypeId};

use super::label_view;

verus! {

/// What an optional type says.
pub open spec fn opt_ty(held: Option<&Ty>) -> Option<TyView> {
    match held {
        Some(ty) => Some(ty@),
        None => None,
    }
}

/// What an optional list of types says.
pub open spec fn maybe_tys(held: Option<Vec<Ty>>) -> Option<Seq<TyView>> {
    match held {
        Some(types) => Some(tys(types@)),
        None => None,
    }
}

/// What an optional list of fields says.
pub open spec fn maybe_fields(held: Option<Vec<(String, Ty)>>) -> Option<Seq<(Seq<char>, TyView)>> {
    match held {
        Some(fields) => Some(named_tys(fields@)),
        None => None,
    }
}

/// An optional type by reference.
pub fn as_opt(held: &Option<Ty>) -> (found: Option<&Ty>)
    ensures
        opt_ty(found) == crate::ty::maybe_ty(*held),
{
    match held {
        Some(ty) => Some(ty),
        None => None,
    }
}

/// The type at an index.
pub open spec fn ty_at_view(types: Seq<TyView>, index: nat) -> Option<TyView> {
    if index < types.len() {
        Some(types[index as int])
    } else {
        None
    }
}

/// The type at an index.
pub fn ty_at(types: &Vec<Ty>, index: usize) -> (found: Option<Ty>)
    ensures
        crate::ty::maybe_ty(found) == ty_at_view(tys(types@), index as nat),
{
    if index < types.len() {
        assert(tys(types@)[index as int] == types@[index as int]@);
        Some(types[index].clone())
    } else {
        None
    }
}

/// Whether two types are the same.
pub open spec fn same_ty_view(left: TyView, right: TyView) -> bool {
    left == right
}

/// Whether two types are the same.
pub fn same_ty(left: &Ty, right: &Ty) -> (same: bool)
    ensures
        same == same_ty_view(left@, right@),
{
    left.same(right)
}

/// Whether an optional type is `wanted`.
pub open spec fn is_ty_view(held: Option<TyView>, wanted: TyView) -> bool {
    held == Some(wanted)
}

/// Whether an optional type is `wanted`.
pub fn is_ty(held: &Option<Ty>, wanted: &Ty) -> (same: bool)
    ensures
        same == is_ty_view(crate::ty::maybe_ty(*held), wanted@),
{
    match held {
        Some(ty) => ty.same(wanted),
        None => false,
    }
}

/// A function type taken apart.
pub struct FunctionTy {
    pub asynchronous: bool,
    pub params: Vec<Ty>,
    pub result: Ty,
}

/// A [`FunctionTy`] with its types as mathematical values.
pub struct FunctionTyView {
    pub asynchronous: bool,
    pub params: Seq<TyView>,
    pub result: TyView,
}

impl View for FunctionTy {
    type V = FunctionTyView;

    open spec fn view(&self) -> FunctionTyView {
        FunctionTyView {
            asynchronous: self.asynchronous,
            params: tys(self.params@),
            result: self.result@,
        }
    }
}

/// What a function type takes and gives back.
pub open spec fn function_of_view(ty: TyView) -> Option<FunctionTyView> {
    match ty {
        TyView::Function { asynchronous, params, result } => Some(
            FunctionTyView { asynchronous, params, result: *result },
        ),
        _ => None,
    }
}

/// What a function type takes and gives back.
pub fn function_of(ty: &Ty) -> (found: Option<FunctionTy>)
    ensures
        match found {
            Some(held) => function_of_view(ty@) == Some(held@),
            None => function_of_view(ty@) is None,
        },
{
    match ty {
        Ty::Function { asynchronous, params, result } => Some(
            FunctionTy {
                asynchronous: *asynchronous,
                params: clone_tys(params),
                result: (**result).clone(),
            },
        ),
        _ => None,
    }
}

/// The arguments of a builtin type.
pub open spec fn builtin_args_view(ty: TyView) -> Option<Seq<TyView>> {
    match ty {
        TyView::Builtin { kind, args } => Some(args),
        _ => None,
    }
}

/// The arguments of a builtin type.
pub fn builtin_args(ty: &Ty) -> (found: Option<Vec<Ty>>)
    ensures
        maybe_tys(found) == builtin_args_view(ty@),
{
    match ty {
        Ty::Builtin { args, .. } => Some(clone_tys(args)),
        _ => None,
    }
}

/// Which builtin type it is.
pub open spec fn builtin_kind_view(ty: TyView) -> Option<Builtin> {
    match ty {
        TyView::Builtin { kind, args } => Some(kind),
        _ => None,
    }
}

/// Which builtin type it is.
pub fn builtin_kind(ty: &Ty) -> (found: Option<Builtin>)
    ensures
        found == builtin_kind_view(ty@),
{
    match ty {
        Ty::Builtin { kind, .. } => Some(*kind),
        _ => None,
    }
}

/// The arguments of a builtin type of one kind.
pub open spec fn args_of_view(ty: TyView, wanted: Builtin) -> Option<Seq<TyView>> {
    match ty {
        TyView::Builtin { kind, args } => if kind == wanted { Some(args) } else { None },
        _ => None,
    }
}

/// The arguments of a builtin type of one kind.
pub fn args_of(ty: &Ty, wanted: Builtin) -> (found: Option<Vec<Ty>>)
    ensures
        maybe_tys(found) == args_of_view(ty@, wanted),
{
    match ty {
        Ty::Builtin { kind, args } => if *kind == wanted { Some(clone_tys(args)) } else { None },
        _ => None,
    }
}

/// What an optional type holds.
pub open spec fn optional_inner_view(ty: TyView) -> Option<TyView> {
    match ty {
        TyView::Optional(inner) => Some(*inner),
        _ => None,
    }
}

/// What an optional type holds.
pub fn optional_inner(ty: &Ty) -> (found: Option<Ty>)
    ensures
        crate::ty::maybe_ty(found) == optional_inner_view(ty@),
{
    match ty {
        Ty::Optional(inner) => Some((**inner).clone()),
        _ => None,
    }
}

/// The members of a tuple type.
pub open spec fn tuple_members_view(ty: TyView) -> Option<Seq<TyView>> {
    match ty {
        TyView::Tuple(members) => Some(members),
        _ => None,
    }
}

/// The members of a tuple type.
pub fn tuple_members(ty: &Ty) -> (found: Option<Vec<Ty>>)
    ensures
        maybe_tys(found) == tuple_members_view(ty@),
{
    match ty {
        Ty::Tuple(members) => Some(clone_tys(members)),
        _ => None,
    }
}

/// What a pointer type points at.
pub open spec fn pointer_target_view(ty: TyView) -> Option<TyView> {
    match ty {
        TyView::Pointer { mutable, target } => Some(*target),
        _ => None,
    }
}

/// What a pointer type points at.
pub fn pointer_target(ty: &Ty) -> (found: Option<Ty>)
    ensures
        crate::ty::maybe_ty(found) == pointer_target_view(ty@),
{
    match ty {
        Ty::Pointer { target, .. } => Some((**target).clone()),
        _ => None,
    }
}

/// What an array type holds.
pub open spec fn array_element_view(ty: TyView) -> Option<TyView> {
    match ty {
        TyView::Array(element, _) => Some(*element),
        _ => None,
    }
}

/// What an array type holds.
pub fn array_element(ty: &Ty) -> (found: Option<Ty>)
    ensures
        crate::ty::maybe_ty(found) == array_element_view(ty@),
{
    match ty {
        Ty::Array(element, _) => Some((**element).clone()),
        _ => None,
    }
}

/// Which declared type it is.
pub open spec fn named_id_view(ty: TyView) -> Option<TypeId> {
    match ty {
        TyView::Named { id, args } => Some(id),
        _ => None,
    }
}

/// Which declared type it is.
pub fn named_id(ty: &Ty) -> (found: Option<TypeId>)
    ensures
        found == named_id_view(ty@),
{
    match ty {
        Ty::Named { id, .. } => Some(*id),
        _ => None,
    }
}

/// The arguments of a declared type.
pub open spec fn named_args_view(ty: TyView) -> Option<Seq<TyView>> {
    match ty {
        TyView::Named { id, args } => Some(args),
        _ => None,
    }
}

/// The arguments of a declared type.
pub fn named_args(ty: &Ty) -> (found: Option<Vec<Ty>>)
    ensures
        maybe_tys(found) == named_args_view(ty@),
{
    match ty {
        Ty::Named { args, .. } => Some(clone_tys(args)),
        _ => None,
    }
}

/// The fields of a record type.
pub open spec fn record_fields_view(ty: TyView) -> Option<Seq<(Seq<char>, TyView)>> {
    match ty {
        TyView::Record(fields) => Some(fields),
        _ => None,
    }
}

/// The fields of a record type.
pub fn record_fields(ty: &Ty) -> (found: Option<Vec<(String, Ty)>>)
    ensures
        maybe_fields(found) == record_fields_view(ty@),
{
    match ty {
        Ty::Record(fields) => Some(clone_named_tys(fields)),
        _ => None,
    }
}

/// A type as the result of something that may throw.
pub open spec fn thrown_or_view(result: TyView) -> TyView {
    TyView::Builtin { kind: Builtin::Result, args: seq![result, TyView::Dynamic] }
}

/// What a function an exception can escape gives back: what it returned, or
/// what it threw.
pub fn thrown_or(result: Ty) -> (ty: Ty)
    ensures
        ty@ == thrown_or_view(result@),
{
    let mut args: Vec<Ty> = Vec::new();
    args.push(result);
    args.push(Ty::Dynamic);
    assert(tys(args@) =~= seq![result@, TyView::Dynamic]);
    Ty::Builtin { kind: Builtin::Result, args }
}

/// `T?`.
pub open spec fn optional_view(ty: TyView) -> TyView {
    ty.optional()
}

/// `T?`.
pub fn optional(ty: Ty) -> (optional: Ty)
    ensures
        optional@ == optional_view(ty@),
{
    ty.optional()
}

/// A builtin type of one argument.
pub open spec fn builtin_over_view(kind: Builtin, arg: TyView) -> TyView {
    TyView::Builtin { kind, args: seq![arg] }
}

/// A builtin type of one argument.
pub fn builtin_over(kind: Builtin, arg: Ty) -> (ty: Ty)
    ensures
        ty@ == builtin_over_view(kind, arg@),
{
    let mut args: Vec<Ty> = Vec::new();
    args.push(arg);
    assert(tys(args@) =~= seq![arg@]);
    Ty::Builtin { kind, args }
}

/// A plain function type of one parameter.
pub open spec fn function_over_view(param: TyView, result: TyView) -> TyView {
    TyView::Function { asynchronous: false, params: seq![param], result: Box::new(result) }
}

/// A plain function type of one parameter.
pub fn function_over(param: Ty, result: Ty) -> (ty: Ty)
    ensures
        ty@ == function_over_view(param@, result@),
{
    let mut params: Vec<Ty> = Vec::new();
    params.push(param);
    assert(tys(params@) =~= seq![param@]);
    Ty::Function { asynchronous: false, params, result: Box::new(result) }
}

/// Whether a type is a list, or a frozen one.
pub open spec fn is_list_kind_view(kind: Option<Builtin>) -> bool {
    kind == Some(Builtin::List) || kind == Some(Builtin::FrozenList)
}

/// Whether a type is a list, or a frozen one.
pub fn is_list_kind(kind: Option<Builtin>) -> (list: bool)
    ensures
        list == is_list_kind_view(kind),
{
    match kind {
        Some(held) => held == Builtin::List || held == Builtin::FrozenList,
        None => false,
    }
}

/// Whether a type is a map, or a frozen one.
pub open spec fn is_map_kind_view(kind: Option<Builtin>) -> bool {
    kind == Some(Builtin::MapTy) || kind == Some(Builtin::FrozenMap)
}

/// Whether a type is a map, or a frozen one.
pub fn is_map_kind(kind: Option<Builtin>) -> (map: bool)
    ensures
        map == is_map_kind_view(kind),
{
    match kind {
        Some(held) => held == Builtin::MapTy || held == Builtin::FrozenMap,
        None => false,
    }
}

/// Whether a type is a set, or a frozen one.
pub open spec fn is_set_kind_view(kind: Option<Builtin>) -> bool {
    kind == Some(Builtin::SetTy) || kind == Some(Builtin::FrozenSet)
}

/// Whether a type is a set, or a frozen one.
pub fn is_set_kind(kind: Option<Builtin>) -> (set: bool)
    ensures
        set == is_set_kind_view(kind),
{
    match kind {
        Some(held) => held == Builtin::SetTy || held == Builtin::FrozenSet,
        None => false,
    }
}

/// Whether a type is an integer.
pub open spec fn is_int_view(ty: TyView) -> bool {
    ty is Int
}

/// Whether a type is an integer.
pub fn is_int(ty: &Ty) -> (integer: bool)
    ensures
        integer == is_int_view(ty@),
{
    match ty {
        Ty::Int(_) => true,
        _ => false,
    }
}

/// What a type with no way to be displayed is reported as.
pub open spec fn displaying_view(ty: TyView) -> Seq<char> {
    concatenated(seq!["displaying `"@, ty.text(), "`"@])
}

/// What a type with no way to be displayed is reported as.
pub fn displaying(ty: &Ty) -> (what: String)
    ensures
        what@ == displaying_view(ty@),
{
    let mut parts: Vec<String> = Vec::new();
    parts.push("displaying `".to_owned());
    parts.push(ty.to_text());
    parts.push("`".to_owned());
    assert(names(parts@) =~= seq!["displaying `"@, ty@.text(), "`"@]);
    concat(&parts)
}

/// A position as the index an instruction carries.
pub open spec fn index_id_view(index: nat) -> u32 {
    if index <= u32::MAX {
        index as u32
    } else {
        u32::MAX
    }
}

/// A position as the index an instruction carries.
pub fn index_id(index: usize) -> (id: u32)
    ensures
        id == index_id_view(index as nat),
{
    if index as u64 <= 0xffff_ffff {
        index as u32
    } else {
        u32::MAX
    }
}

/// What an optional text spells.
pub open spec fn opt_text(text: Option<&str>) -> Option<Seq<char>> {
    match text {
        Some(held) => Some(held@),
        None => None,
    }
}

/// An optional text by reference.
pub fn opt_str(text: &Option<String>) -> (found: Option<&str>)
    ensures
        opt_text(found) == maybe_name(*text),
{
    match text {
        Some(held) => Some(held.as_str()),
        None => None,
    }
}

/// An optional label by reference.
pub fn labelled(label: &Option<String>) -> (found: Option<&String>)
    ensures
        label_view(found) == maybe_name(*label),
{
    match label {
        Some(held) => Some(held),
        None => None,
    }
}

/// Whether two texts are the same.
pub open spec fn same_text_view(left: Seq<char>, right: Seq<char>) -> bool {
    left == right
}

/// A list of one value.
pub open spec fn seq1(value: Value) -> Seq<Value> {
    seq![value]
}

/// A list of two values.
pub open spec fn seq2(first: Value, second: Value) -> Seq<Value> {
    seq![first, second]
}

/// A jump that passes values.
pub open spec fn target_view(block: BlockId, args: Seq<Value>) -> TargetView {
    TargetView { block, args }
}

/// No types.
pub fn no_tys() -> (types: Vec<Ty>)
    ensures
        tys(types@) == Seq::<TyView>::empty(),
{
    let types: Vec<Ty> = Vec::new();
    assert(tys(types@) =~= Seq::empty());
    types
}

/// The instruction an operator written in source becomes, where it is one.
pub open spec fn binary_op_view(op: AstBinary) -> Option<BinaryOp> {
    match op {
        AstBinary::Add => Some(BinaryOp::Add),
        AstBinary::Subtract => Some(BinaryOp::Subtract),
        AstBinary::Multiply => Some(BinaryOp::Multiply),
        AstBinary::Divide => Some(BinaryOp::Divide),
        AstBinary::IntegerDivide => Some(BinaryOp::IntegerDivide),
        AstBinary::Remainder => Some(BinaryOp::Remainder),
        AstBinary::Power => Some(BinaryOp::Power),
        AstBinary::Concat => Some(BinaryOp::Concat),
        AstBinary::Equal => Some(BinaryOp::Equal),
        AstBinary::NotEqual => Some(BinaryOp::NotEqual),
        AstBinary::Less => Some(BinaryOp::Less),
        AstBinary::LessEqual => Some(BinaryOp::LessEqual),
        AstBinary::Greater => Some(BinaryOp::Greater),
        AstBinary::GreaterEqual => Some(BinaryOp::GreaterEqual),
        AstBinary::BitAnd => Some(BinaryOp::BitAnd),
        AstBinary::BitOr => Some(BinaryOp::BitOr),
        AstBinary::BitXor => Some(BinaryOp::BitXor),
        AstBinary::ShiftLeft => Some(BinaryOp::ShiftLeft),
        AstBinary::ShiftRight => Some(BinaryOp::ShiftRight),
        AstBinary::And => None,
        AstBinary::Or => None,
        AstBinary::Coalesce => None,
    }
}

/// The instruction an operator written in source becomes, where it is one.
pub fn binary_op(op: AstBinary) -> (lowered: Option<BinaryOp>)
    ensures
        lowered == binary_op_view(op),
{
    match op {
        AstBinary::Add => Some(BinaryOp::Add),
        AstBinary::Subtract => Some(BinaryOp::Subtract),
        AstBinary::Multiply => Some(BinaryOp::Multiply),
        AstBinary::Divide => Some(BinaryOp::Divide),
        AstBinary::IntegerDivide => Some(BinaryOp::IntegerDivide),
        AstBinary::Remainder => Some(BinaryOp::Remainder),
        AstBinary::Power => Some(BinaryOp::Power),
        AstBinary::Concat => Some(BinaryOp::Concat),
        AstBinary::Equal => Some(BinaryOp::Equal),
        AstBinary::NotEqual => Some(BinaryOp::NotEqual),
        AstBinary::Less => Some(BinaryOp::Less),
        AstBinary::LessEqual => Some(BinaryOp::LessEqual),
        AstBinary::Greater => Some(BinaryOp::Greater),
        AstBinary::GreaterEqual => Some(BinaryOp::GreaterEqual),
        AstBinary::BitAnd => Some(BinaryOp::BitAnd),
        AstBinary::BitOr => Some(BinaryOp::BitOr),
        AstBinary::BitXor => Some(BinaryOp::BitXor),
        AstBinary::ShiftLeft => Some(BinaryOp::ShiftLeft),
        AstBinary::ShiftRight => Some(BinaryOp::ShiftRight),
        AstBinary::And => None,
        AstBinary::Or => None,
        AstBinary::Coalesce => None,
    }
}


/// What a type reaches, from `from` on.
pub open spec fn member_from(held: Seq<(TypeId, FuncId)>, id: TypeId, from: nat) -> Option<FuncId>
    decreases held.len() - from,
{
    if from >= held.len() {
        None
    } else if held[from as int].0 == id {
        Some(held[from as int].1)
    } else {
        member_from(held, id, from + 1)
    }
}

/// The function among `held` that a declared type reaches.
pub open spec fn shown_by_view(ty: TyView, held: Seq<(TypeId, FuncId)>) -> Option<FuncId> {
    match ty {
        TyView::Named { id, args } => member_from(held, id, 0),
        _ => None,
    }
}

fn member_for(held: &Vec<(TypeId, FuncId)>, id: TypeId) -> (found: Option<FuncId>)
    ensures
        found == member_from(held@, id, 0),
{
    let mut i: usize = 0;
    while i < held.len()
        invariant
            i <= held.len(),
            member_from(held@, id, 0) == member_from(held@, id, i as nat),
        decreases held.len() - i,
    {
        if held[i].0 == id {
            return Some(held[i].1);
        }
        i += 1;
    }
    None
}

/// The function among `held` that a declared type reaches.
pub fn shown_by(ty: &Ty, held: &Vec<(TypeId, FuncId)>) -> (found: Option<FuncId>)
    ensures
        found == shown_by_view(ty@, held@),
{
    match ty {
        Ty::Named { id, .. } => member_for(held, *id),
        _ => None,
    }
}

/// The arguments of a declared type, which any other type has none of.
pub open spec fn args_given_view(ty: TyView) -> Seq<TyView> {
    match ty {
        TyView::Named { id, args } => args,
        _ => Seq::empty(),
    }
}

/// The arguments of a declared type, which any other type has none of.
pub fn args_given(ty: &Ty) -> (args: Vec<Ty>)
    ensures
        tys(args@) == args_given_view(ty@),
{
    match ty {
        Ty::Named { args, .. } => clone_tys(args),
        _ => {
            let args: Vec<Ty> = Vec::new();
            assert(tys(args@) =~= Seq::empty());
            args
        },
    }
}

} // verus!
