//! Turning a checked type into the type its values are made of.

use vstd::prelude::*;

use crate::sema::{Generic, ModuleId, Primitive, Type};
use crate::text::same_text;
use crate::ty::{
    any_field_nests, any_nests, named_tys, tys, Builtin, FloatTy, IntTy, Ty, TyView, TypeId,
};

verus! {

/// A declared type, and what it is called in the program.
#[derive(Debug, Clone, Copy)]
pub struct Declared<'a> {
    pub module: ModuleId,
    pub name: &'a String,
    pub id: TypeId,
}

/// What the type declared first as `name` in `module` is called, from `from`
/// on.
pub open spec fn id_from(
    held: Seq<Declared>,
    module: ModuleId,
    name: Seq<char>,
    from: nat,
) -> Option<TypeId>
    decreases held.len() - from,
{
    if from >= held.len() {
        None
    } else if held[from as int].module == module && held[from as int].name@ == name {
        Some(held[from as int].id)
    } else {
        id_from(held, module, name, from + 1)
    }
}

/// What the type declared as `name` in `module` is called.
pub open spec fn id_of(held: Seq<Declared>, module: ModuleId, name: Seq<char>) -> Option<TypeId> {
    id_from(held, module, name, 0)
}

/// What the type declared as `name` in `module` is called.
pub fn find_id(held: &Vec<Declared>, module: ModuleId, name: &str) -> (id: Option<TypeId>)
    ensures
        id == id_of(held@, module, name@),
{
    let mut i: usize = 0;
    while i < held.len()
        invariant
            i <= held.len(),
            id_of(held@, module, name@) == id_from(held@, module, name@, i as nat),
        decreases held.len() - i,
    {
        if held[i].module == module && same_text(held[i].name.as_str(), name) {
            return Some(held[i].id);
        }
        i += 1;
    }
    None
}

/// What a primitive is made of.
pub open spec fn primitive_view(primitive: Primitive) -> TyView {
    match primitive {
        Primitive::Nil => TyView::Nil,
        Primitive::Bool => TyView::Bool,
        Primitive::I8 => TyView::Int(IntTy::I8),
        Primitive::I16 => TyView::Int(IntTy::I16),
        Primitive::I32 => TyView::Int(IntTy::I32),
        Primitive::I64 => TyView::Int(IntTy::I64),
        Primitive::U8 => TyView::Int(IntTy::U8),
        Primitive::U16 => TyView::Int(IntTy::U16),
        Primitive::U32 => TyView::Int(IntTy::U32),
        Primitive::U64 => TyView::Int(IntTy::U64),
        Primitive::Isize => TyView::Int(IntTy::Isize),
        Primitive::Usize => TyView::Int(IntTy::Usize),
        Primitive::F32 => TyView::Float(FloatTy::F32),
        Primitive::F64 => TyView::Float(FloatTy::F64),
        Primitive::Text => TyView::Str,
        Primitive::Bytes => TyView::Bytes,
        Primitive::Char => TyView::Char,
        Primitive::Never => TyView::Never,
        Primitive::Any => TyView::Dynamic,
        Primitive::Unknown => TyView::Dynamic,
    }
}

fn primitive_type(primitive: Primitive) -> (ty: Ty)
    ensures
        ty@ == primitive_view(primitive),
{
    match primitive {
        Primitive::Nil => Ty::Nil,
        Primitive::Bool => Ty::Bool,
        Primitive::I8 => Ty::Int(IntTy::I8),
        Primitive::I16 => Ty::Int(IntTy::I16),
        Primitive::I32 => Ty::Int(IntTy::I32),
        Primitive::I64 => Ty::Int(IntTy::I64),
        Primitive::U8 => Ty::Int(IntTy::U8),
        Primitive::U16 => Ty::Int(IntTy::U16),
        Primitive::U32 => Ty::Int(IntTy::U32),
        Primitive::U64 => Ty::Int(IntTy::U64),
        Primitive::Isize => Ty::Int(IntTy::Isize),
        Primitive::Usize => Ty::Int(IntTy::Usize),
        Primitive::F32 => Ty::Float(FloatTy::F32),
        Primitive::F64 => Ty::Float(FloatTy::F64),
        Primitive::Text => Ty::Str,
        Primitive::Bytes => Ty::Bytes,
        Primitive::Char => Ty::Char,
        Primitive::Never => Ty::Never,
        Primitive::Any => Ty::Dynamic,
        Primitive::Unknown => Ty::Dynamic,
    }
}

/// Which generic type of the program one of the language is; the error type is
/// none of them.
pub open spec fn builtin_view(kind: Generic) -> Option<Builtin> {
    match kind {
        Generic::Result => Some(Builtin::Result),
        Generic::Error => None,
        Generic::List => Some(Builtin::List),
        Generic::MapTy => Some(Builtin::MapTy),
        Generic::SetTy => Some(Builtin::SetTy),
        Generic::FrozenList => Some(Builtin::FrozenList),
        Generic::FrozenMap => Some(Builtin::FrozenMap),
        Generic::FrozenSet => Some(Builtin::FrozenSet),
        Generic::RangeExclusive => Some(Builtin::RangeExclusive),
        Generic::RangeInclusive => Some(Builtin::RangeInclusive),
        Generic::ReversedRangeExclusive => Some(Builtin::ReversedRangeExclusive),
        Generic::ReversedRangeInclusive => Some(Builtin::ReversedRangeInclusive),
        Generic::Task => Some(Builtin::Task),
    }
}

fn builtin(kind: Generic) -> (found: Option<Builtin>)
    ensures
        found == builtin_view(kind),
{
    match kind {
        Generic::Result => Some(Builtin::Result),
        Generic::Error => None,
        Generic::List => Some(Builtin::List),
        Generic::MapTy => Some(Builtin::MapTy),
        Generic::SetTy => Some(Builtin::SetTy),
        Generic::FrozenList => Some(Builtin::FrozenList),
        Generic::FrozenMap => Some(Builtin::FrozenMap),
        Generic::FrozenSet => Some(Builtin::FrozenSet),
        Generic::RangeExclusive => Some(Builtin::RangeExclusive),
        Generic::RangeInclusive => Some(Builtin::RangeInclusive),
        Generic::ReversedRangeExclusive => Some(Builtin::ReversedRangeExclusive),
        Generic::ReversedRangeInclusive => Some(Builtin::ReversedRangeInclusive),
        Generic::Task => Some(Builtin::Task),
    }
}

/// The type a value of type `ty` is made of, or why it is made of none.
pub open spec fn converted(ty: Type, ids: Seq<Declared>) -> Result<TyView, Seq<char>>
    decreases ty, 0nat,
{
    match ty {
        Type::Primitive(primitive) => Ok(primitive_view(primitive)),
        Type::Builtin { kind, args } => match builtin_view(kind) {
            Some(kind) => match converted_each(args@, ids, args@.len()) {
                Ok(args) => Ok(TyView::Builtin { kind, args }),
                Err(refused) => Err(refused),
            },
            None => Ok(TyView::Error),
        },
        Type::Named { module, name, args } => match id_of(ids, module, name@) {
            Some(id) => match converted_each(args@, ids, args@.len()) {
                Ok(args) => Ok(TyView::Named { id, args }),
                Err(refused) => Err(refused),
            },
            None => Err("a type that was never declared"@),
        },
        Type::Parameter(name) => Ok(TyView::Parameter(name@)),
        Type::Optional(inner) => match converted(*inner, ids) {
            Ok(held) => Ok(held.optional()),
            Err(refused) => Err(refused),
        },
        Type::Union(members) => match converted_each(members@, ids, members@.len()) {
            Ok(held) => Ok(TyView::Union(held)),
            Err(refused) => Err(refused),
        },
        Type::Tuple(members) => if members@.len() == 0 {
            Ok(TyView::Unit)
        } else {
            match converted_each(members@, ids, members@.len()) {
                Ok(held) => Ok(TyView::Tuple(held)),
                Err(refused) => Err(refused),
            }
        },
        Type::Record(fields) => match converted_fields(fields@, ids, fields@.len()) {
            Ok(held) => Ok(TyView::Record(held)),
            Err(refused) => Err(refused),
        },
        Type::Function { asynchronous, sendable, params, result } => if asynchronous {
            Err("an async function value"@)
        } else {
            match converted_each(params@, ids, params@.len()) {
                Ok(params) => match converted(*result, ids) {
                    Ok(held) => Ok(
                        TyView::Function { asynchronous: false, params, result: Box::new(held) },
                    ),
                    Err(refused) => Err(refused),
                },
                Err(refused) => Err(refused),
            }
        },
        Type::Array(element, length) => match converted(*element, ids) {
            Ok(held) => Ok(TyView::Array(Box::new(held), length)),
            Err(refused) => Err(refused),
        },
        Type::Pointer { mutable, target } => match converted(*target, ids) {
            Ok(held) => Ok(TyView::Pointer { mutable, target: Box::new(held) }),
            Err(refused) => Err(refused),
        },
        Type::IntegerLiteral => Ok(TyView::integer()),
        Type::FloatLiteral => Ok(TyView::Float(FloatTy::F64)),
        Type::SequenceLiteral(element) => match converted(*element, ids) {
            Ok(held) => Ok(TyView::Builtin { kind: Builtin::List, args: seq![held] }),
            Err(refused) => Err(refused),
        },
        Type::Intersection(_) => Err("an intersection type"@),
        Type::Unresolved => Err("a type the checker could not work out"@),
    }
}

/// The same for the first `count` of some types; the first that is made of none
/// says why.
pub open spec fn converted_each(types: Seq<Type>, ids: Seq<Declared>, count: nat) -> Result<
    Seq<TyView>,
    Seq<char>,
>
    decreases types, count,
{
    if count == 0 || count > types.len() {
        Ok(Seq::empty())
    } else {
        match converted_each(types, ids, (count - 1) as nat) {
            Ok(before) => match converted(types[count - 1], ids) {
                Ok(held) => Ok(before.push(held)),
                Err(refused) => Err(refused),
            },
            Err(refused) => Err(refused),
        }
    }
}

/// The same for the first `count` of some fields.
pub open spec fn converted_fields(fields: Seq<(String, Type)>, ids: Seq<Declared>, count: nat) -> Result<
    Seq<(Seq<char>, TyView)>,
    Seq<char>,
>
    decreases fields, count,
{
    if count == 0 || count > fields.len() {
        Ok(Seq::empty())
    } else {
        match converted_fields(fields, ids, (count - 1) as nat) {
            Ok(before) => match converted(fields[count - 1].1, ids) {
                Ok(held) => Ok(before.push((fields[count - 1].0@, held))),
                Err(refused) => Err(refused),
            },
            Err(refused) => Err(refused),
        }
    }
}

/// A conversion and what it is to give.
pub open spec fn converts(result: Result<Ty, &str>, expected: Result<TyView, Seq<char>>) -> bool {
    match result {
        Ok(ty) => expected == Ok::<TyView, Seq<char>>(ty@),
        Err(refused) => expected == Err::<TyView, Seq<char>>(refused@),
    }
}

/// The type a value of type `ty` is made of.
///
/// # Errors
///
/// Says why, where it is made of none.
pub fn convert(ty: &Type, ids: &Vec<Declared>) -> (result: Result<Ty, &'static str>)
    ensures
        converts(result, converted(*ty, ids@)),
    decreases ty, 0nat,
{
    match ty {
        Type::Primitive(primitive) => Ok(primitive_type(*primitive)),
        Type::Builtin { kind, args } => match builtin(*kind) {
            Some(kind) => match each(args, ids) {
                Ok(args) => Ok(Ty::Builtin { kind, args }),
                Err(refused) => Err(refused),
            },
            None => Ok(Ty::Error),
        },
        Type::Named { module, name, args } => match find_id(ids, *module, name.as_str()) {
            Some(id) => match each(args, ids) {
                Ok(args) => Ok(Ty::Named { id, args }),
                Err(refused) => Err(refused),
            },
            None => Err("a type that was never declared"),
        },
        Type::Parameter(name) => Ok(Ty::Parameter(name.clone())),
        Type::Optional(inner) => match convert(inner, ids) {
            Ok(held) => Ok(held.optional()),
            Err(refused) => Err(refused),
        },
        Type::Union(members) => match each(members, ids) {
            Ok(held) => Ok(Ty::Union(held)),
            Err(refused) => Err(refused),
        },
        Type::Tuple(members) => if members.len() == 0 {
            Ok(Ty::Unit)
        } else {
            match each(members, ids) {
                Ok(held) => Ok(Ty::Tuple(held)),
                Err(refused) => Err(refused),
            }
        },
        Type::Record(fields) => match each_field(fields, ids) {
            Ok(held) => Ok(Ty::Record(held)),
            Err(refused) => Err(refused),
        },
        Type::Function { asynchronous, sendable: _, params, result } => if *asynchronous {
            Err("an async function value")
        } else {
            match each(params, ids) {
                Ok(params) => match convert(result, ids) {
                    Ok(held) => Ok(
                        Ty::Function { asynchronous: false, params, result: Box::new(held) },
                    ),
                    Err(refused) => Err(refused),
                },
                Err(refused) => Err(refused),
            }
        },
        Type::Array(element, length) => match convert(element, ids) {
            Ok(held) => Ok(Ty::Array(Box::new(held), *length)),
            Err(refused) => Err(refused),
        },
        Type::Pointer { mutable, target } => match convert(target, ids) {
            Ok(held) => Ok(Ty::Pointer { mutable: *mutable, target: Box::new(held) }),
            Err(refused) => Err(refused),
        },
        Type::IntegerLiteral => Ok(Ty::integer()),
        Type::FloatLiteral => Ok(Ty::Float(FloatTy::F64)),
        Type::SequenceLiteral(element) => match convert(element, ids) {
            Ok(held) => {
                let mut args: Vec<Ty> = Vec::new();
                args.push(held);
                assert(tys(args@) =~= seq![held@]);
                Ok(Ty::Builtin { kind: Builtin::List, args })
            },
            Err(refused) => Err(refused),
        },
        Type::Intersection(_) => Err("an intersection type"),
        Type::Unresolved => Err("a type the checker could not work out"),
    }
}

proof fn refusal_stays(types: Seq<Type>, ids: Seq<Declared>, first: nat, last: nat)
    requires
        first <= last <= types.len(),
        converted_each(types, ids, first) is Err,
    ensures
        converted_each(types, ids, last) == converted_each(types, ids, first),
    decreases last,
{
    if first < last {
        refusal_stays(types, ids, first, (last - 1) as nat);
    }
}

/// The same for each of some types.
pub fn each(types: &Vec<Type>, ids: &Vec<Declared>) -> (result: Result<Vec<Ty>, &'static str>)
    ensures
        match result {
            Ok(held) => converted_each(types@, ids@, types@.len()) == Ok::<
                Seq<TyView>,
                Seq<char>,
            >(tys(held@)),
            Err(refused) => converted_each(types@, ids@, types@.len()) == Err::<
                Seq<TyView>,
                Seq<char>,
            >(refused@),
        },
    decreases types@, types@.len(),
{
    let mut held: Vec<Ty> = Vec::new();
    let mut i: usize = 0;
    assert(tys(held@) =~= Seq::empty());
    while i < types.len()
        invariant
            i <= types.len(),
            converted_each(types@, ids@, i as nat) == Ok::<Seq<TyView>, Seq<char>>(tys(held@)),
        decreases types.len() - i,
    {
        assert(decreases_to!(types@ => types@[i as int]));
        match convert(&types[i], ids) {
            Ok(ty) => {
                let ghost before = held@;
                held.push(ty);
                assert(tys(held@) =~= tys(before).push(ty@));
            },
            Err(refused) => {
                proof {
                    refusal_stays(types@, ids@, (i + 1) as nat, types@.len());
                }
                return Err(refused);
            },
        }
        i += 1;
    }
    Ok(held)
}

proof fn field_refusal_stays(fields: Seq<(String, Type)>, ids: Seq<Declared>, first: nat, last: nat)
    requires
        first <= last <= fields.len(),
        converted_fields(fields, ids, first) is Err,
    ensures
        converted_fields(fields, ids, last) == converted_fields(fields, ids, first),
    decreases last,
{
    if first < last {
        field_refusal_stays(fields, ids, first, (last - 1) as nat);
    }
}

fn each_field(fields: &Vec<(String, Type)>, ids: &Vec<Declared>) -> (result: Result<
    Vec<(String, Ty)>,
    &'static str,
>)
    ensures
        match result {
            Ok(held) => converted_fields(fields@, ids@, fields@.len()) == Ok::<
                Seq<(Seq<char>, TyView)>,
                Seq<char>,
            >(named_tys(held@)),
            Err(refused) => converted_fields(fields@, ids@, fields@.len()) == Err::<
                Seq<(Seq<char>, TyView)>,
                Seq<char>,
            >(refused@),
        },
    decreases fields@, fields@.len(),
{
    let mut held: Vec<(String, Ty)> = Vec::new();
    let mut i: usize = 0;
    assert(named_tys(held@) =~= Seq::empty());
    while i < fields.len()
        invariant
            i <= fields.len(),
            converted_fields(fields@, ids@, i as nat) == Ok::<
                Seq<(Seq<char>, TyView)>,
                Seq<char>,
            >(named_tys(held@)),
        decreases fields.len() - i,
    {
        assert(decreases_to!(fields@ => fields@[i as int]));
        assert(decreases_to!(fields@[i as int] => fields@[i as int].1));
        match convert(&fields[i].1, ids) {
            Ok(ty) => {
                let ghost before = held@;
                let name = fields[i].0.clone();
                held.push((name, ty));
                assert(named_tys(held@) =~= named_tys(before).push((name@, ty@)));
            },
            Err(refused) => {
                proof {
                    field_refusal_stays(fields@, ids@, (i + 1) as nat, fields@.len());
                }
                return Err(refused);
            },
        }
        i += 1;
    }
    Ok(held)
}

/// No type a value is made of has an optional directly in an optional.
pub proof fn converted_types_never_nest(ty: Type, ids: Seq<Declared>)
    ensures
        converted(ty, ids) matches Ok(held) ==> !held.nests(),
    decreases ty, 0nat,
{
    match ty {
        Type::Builtin { kind, args } => {
            each_converted_never_nests(args@, ids, args@.len());
        },
        Type::Named { module, name, args } => {
            each_converted_never_nests(args@, ids, args@.len());
        },
        Type::Optional(inner) => {
            converted_types_never_nest(*inner, ids);
        },
        Type::Union(members) => {
            each_converted_never_nests(members@, ids, members@.len());
        },
        Type::Tuple(members) => {
            each_converted_never_nests(members@, ids, members@.len());
        },
        Type::Record(fields) => {
            converted_fields_never_nest(fields@, ids, fields@.len());
        },
        Type::Function { asynchronous, sendable, params, result } => {
            each_converted_never_nests(params@, ids, params@.len());
            converted_types_never_nest(*result, ids);
        },
        Type::Array(element, length) => {
            converted_types_never_nest(*element, ids);
        },
        Type::Pointer { mutable, target } => {
            converted_types_never_nest(*target, ids);
        },
        Type::SequenceLiteral(element) => {
            converted_types_never_nest(*element, ids);
            if let Ok(held) = converted(*element, ids) {
                assert(!any_nests(seq![held]));
            }
        },
        _ => {},
    }
}

/// The same of several types.
pub proof fn each_converted_never_nests(types: Seq<Type>, ids: Seq<Declared>, count: nat)
    ensures
        converted_each(types, ids, count) matches Ok(held) ==> !any_nests(held),
    decreases types, count,
{
    if count > 0 && count <= types.len() {
        each_converted_never_nests(types, ids, (count - 1) as nat);
        converted_types_never_nest(types[count - 1], ids);
    }
}

proof fn converted_fields_never_nest(fields: Seq<(String, Type)>, ids: Seq<Declared>, count: nat)
    ensures
        converted_fields(fields, ids, count) matches Ok(held) ==> !any_field_nests(held),
    decreases fields, count,
{
    if count > 0 && count <= fields.len() {
        converted_fields_never_nest(fields, ids, (count - 1) as nat);
        converted_types_never_nest(fields[count - 1].1, ids);
    }
}

} // verus!
