//! The types an LIR value carries.

use vstd::prelude::*;
use vstd::string::StringExecFns;

use crate::text::{
    decimal, join, joined, names, number, position, position_is_first, position_of,
};

verus! {

/// A width and a signedness.
#[derive(Debug, Clone, Copy, PartialEq, Eq, Hash, Structural)]
pub enum IntTy {
    I8,
    I16,
    I32,
    I64,
    U8,
    U16,
    U32,
    U64,
    Isize,
    Usize,
}

impl IntTy {
    /// Whether a value of the type may be negative.
    pub open spec fn signed(self) -> bool {
        self is I8 || self is I16 || self is I32 || self is I64 || self is Isize
    }

    /// How the type is written.
    pub open spec fn text(self) -> Seq<char> {
        match self {
            IntTy::I8 => "i8"@,
            IntTy::I16 => "i16"@,
            IntTy::I32 => "i32"@,
            IntTy::I64 => "i64"@,
            IntTy::U8 => "u8"@,
            IntTy::U16 => "u16"@,
            IntTy::U32 => "u32"@,
            IntTy::U64 => "u64"@,
            IntTy::Isize => "isize"@,
            IntTy::Usize => "usize"@,
        }
    }

    /// Whether the type is signed, which decides what overflows and how a
    /// shift and a division behave.
    #[must_use]
    pub fn is_signed(self) -> (signed: bool)
        ensures
            signed == self.signed(),
    {
        matches!(self, IntTy::I8 | IntTy::I16 | IntTy::I32 | IntTy::I64 | IntTy::Isize)
    }

    /// How wide the type is, or `None` for the two whose width the target
    /// decides.
    #[must_use]
    pub fn bits(self) -> (bits: Option<u32>)
        ensures
            bits == match self {
                IntTy::I8 | IntTy::U8 => Some(8u32),
                IntTy::I16 | IntTy::U16 => Some(16u32),
                IntTy::I32 | IntTy::U32 => Some(32u32),
                IntTy::I64 | IntTy::U64 => Some(64u32),
                IntTy::Isize | IntTy::Usize => None,
            },
    {
        match self {
            IntTy::I8 | IntTy::U8 => Some(8),
            IntTy::I16 | IntTy::U16 => Some(16),
            IntTy::I32 | IntTy::U32 => Some(32),
            IntTy::I64 | IntTy::U64 => Some(64),
            IntTy::Isize | IntTy::Usize => None,
        }
    }

    /// How the type is written in source.
    #[must_use]
    pub fn spelling(self) -> (spelled: &'static str)
        ensures
            spelled@ == self.text(),
    {
        match self {
            IntTy::I8 => "i8",
            IntTy::I16 => "i16",
            IntTy::I32 => "i32",
            IntTy::I64 => "i64",
            IntTy::U8 => "u8",
            IntTy::U16 => "u16",
            IntTy::U32 => "u32",
            IntTy::U64 => "u64",
            IntTy::Isize => "isize",
            IntTy::Usize => "usize",
        }
    }
}

/// A binary floating-point width.
#[derive(Debug, Clone, Copy, PartialEq, Eq, Hash, Structural)]
pub enum FloatTy {
    F32,
    F64,
}

impl FloatTy {
    /// How the type is written.
    pub open spec fn text(self) -> Seq<char> {
        match self {
            FloatTy::F32 => "f32"@,
            FloatTy::F64 => "f64"@,
        }
    }

    /// How wide the type is.
    #[must_use]
    pub fn bits(self) -> (bits: u32)
        ensures
            bits == match self {
                FloatTy::F32 => 32u32,
                FloatTy::F64 => 64u32,
            },
    {
        match self {
            FloatTy::F32 => 32,
            FloatTy::F64 => 64,
        }
    }

    /// How the type is written in source.
    #[must_use]
    pub fn spelling(self) -> (spelled: &'static str)
        ensures
            spelled@ == self.text(),
    {
        match self {
            FloatTy::F32 => "f32",
            FloatTy::F64 => "f64",
        }
    }
}

/// A nominal type declared somewhere in the program: a struct, an enum, or an
/// interface. Indexes the program's type table.
#[derive(Debug, Clone, Copy, PartialEq, Eq, PartialOrd, Ord, Hash, Structural)]
pub struct TypeId(pub u32);

/// A generic type the language names without an import, kept apart from user
/// declarations because the backend knows their representation.
#[derive(Debug, Clone, Copy, PartialEq, Eq, Hash, Structural)]
pub enum Builtin {
    Result,
    List,
    /// `Map<K, V>`.
    MapTy,
    /// `Set<T>`.
    SetTy,
    FrozenList,
    FrozenMap,
    FrozenSet,
    Slice,
    RangeExclusive,
    RangeInclusive,
    ReversedRangeExclusive,
    ReversedRangeInclusive,
    Task,
    /// What owns the tasks started in a part of a program.
    Scope,
}

impl Builtin {
    /// How the type is written.
    pub open spec fn text(self) -> Seq<char> {
        match self {
            Builtin::Result => "Result"@,
            Builtin::List => "List"@,
            Builtin::MapTy => "Map"@,
            Builtin::SetTy => "Set"@,
            Builtin::FrozenList => "FrozenList"@,
            Builtin::FrozenMap => "FrozenMap"@,
            Builtin::FrozenSet => "FrozenSet"@,
            Builtin::Slice => "Slice"@,
            Builtin::RangeExclusive | Builtin::RangeInclusive => "range"@,
            Builtin::ReversedRangeExclusive | Builtin::ReversedRangeInclusive => "reversed range"@,
            Builtin::Task => "Task"@,
            Builtin::Scope => "Scope"@,
        }
    }

    /// How the type is written in source.
    #[must_use]
    pub fn spelling(self) -> (spelled: &'static str)
        ensures
            spelled@ == self.text(),
    {
        match self {
            Builtin::Result => "Result",
            Builtin::List => "List",
            Builtin::MapTy => "Map",
            Builtin::SetTy => "Set",
            Builtin::FrozenList => "FrozenList",
            Builtin::FrozenMap => "FrozenMap",
            Builtin::FrozenSet => "FrozenSet",
            Builtin::Slice => "Slice",
            Builtin::RangeExclusive | Builtin::RangeInclusive => "range",
            Builtin::ReversedRangeExclusive | Builtin::ReversedRangeInclusive => "reversed range",
            Builtin::Task => "Task",
            Builtin::Scope => "Scope",
        }
    }
}

/// What an LIR value is made of.
#[derive(Debug, Eq, Hash)]
pub enum Ty {
    /// What a function with no declared result gives back. It holds no
    /// information, so the backend gives it no storage.
    Unit,
    /// The type `nil` alone inhabits. A value that may be absent is an
    /// [`Ty::Optional`], not this.
    Nil,
    /// The type no value has. A value carries it where control never reaches
    /// the use, so nothing reads one and it needs no representation.
    Never,
    /// `any` and `unknown`: a value carrying what it is at runtime, because
    /// its static type is not what says.
    Dynamic,
    Bool,
    Int(IntTy),
    Float(FloatTy),
    /// One Unicode scalar value.
    Char,
    /// An immutable UTF-8 string.
    Str,
    /// A byte string.
    Bytes,
    /// The common error type, holding its message.
    Error,
    /// A struct, enum, or interface, with its type arguments in the order
    /// they were declared.
    Named { id: TypeId, args: Vec<Ty> },
    Builtin { kind: Builtin, args: Vec<Ty> },
    /// A structural record, by field name in declaration order.
    Record(Vec<(String, Ty)>),
    Tuple(Vec<Ty>),
    /// `T?`: a `T`, or nothing. Never nested, because a chain of optional
    /// accesses gives one absent value rather than one per link.
    Optional(Box<Ty>),
    /// A value that is one of several types, and carries which.
    Union(Vec<Ty>),
    /// `[T; N]`.
    Array(Box<Ty>, u64),
    /// `*const T` or `*mut T`.
    Pointer { mutable: bool, target: Box<Ty> },
    /// A closure or a function value.
    Function { asynchronous: bool, params: Vec<Ty>, result: Box<Ty> },
    /// The one place a binding lives when a closure captured it and something
    /// assigns to it, which every holder reads and writes.
    Cell(Box<Ty>),
    /// A type parameter of the function or type being lowered.
    Parameter(String),
}

/// A [`Ty`] with its sequences and names as mathematical values.
pub enum TyView {
    Unit,
    Nil,
    Never,
    Dynamic,
    Bool,
    Int(IntTy),
    Float(FloatTy),
    Char,
    Str,
    Bytes,
    Error,
    Named { id: TypeId, args: Seq<TyView> },
    Builtin { kind: Builtin, args: Seq<TyView> },
    Record(Seq<(Seq<char>, TyView)>),
    Tuple(Seq<TyView>),
    Optional(Box<TyView>),
    Union(Seq<TyView>),
    Array(Box<TyView>, u64),
    Pointer { mutable: bool, target: Box<TyView> },
    Function { asynchronous: bool, params: Seq<TyView>, result: Box<TyView> },
    Cell(Box<TyView>),
    Parameter(Seq<char>),
}

/// The views of several types.
pub open spec fn tys(types: Seq<Ty>) -> Seq<TyView>
    decreases types,
{
    Seq::new(
        types.len(),
        |i: int|
            if 0 <= i < types.len() {
                types[i].model()
            } else {
                arbitrary()
            },
    )
}

/// The views of several named types.
pub open spec fn named_tys(fields: Seq<(String, Ty)>) -> Seq<(Seq<char>, TyView)>
    decreases fields,
{
    Seq::new(
        fields.len(),
        |i: int|
            if 0 <= i < fields.len() {
                (fields[i].0@, fields[i].1.model())
            } else {
                arbitrary()
            },
    )
}

/// The view of an optional type.
pub open spec fn maybe_ty(held: Option<Ty>) -> Option<TyView> {
    match held {
        Some(ty) => Some(ty@),
        None => None,
    }
}

impl Ty {
    /// What the type says, apart from how it is stored.
    pub open spec fn model(self) -> TyView
        decreases self,
    {
        match self {
            Ty::Unit => TyView::Unit,
            Ty::Nil => TyView::Nil,
            Ty::Never => TyView::Never,
            Ty::Dynamic => TyView::Dynamic,
            Ty::Bool => TyView::Bool,
            Ty::Int(held) => TyView::Int(held),
            Ty::Float(held) => TyView::Float(held),
            Ty::Char => TyView::Char,
            Ty::Str => TyView::Str,
            Ty::Bytes => TyView::Bytes,
            Ty::Error => TyView::Error,
            Ty::Named { id, args } => TyView::Named { id, args: tys(args@) },
            Ty::Builtin { kind, args } => TyView::Builtin { kind, args: tys(args@) },
            Ty::Record(fields) => TyView::Record(named_tys(fields@)),
            Ty::Tuple(members) => TyView::Tuple(tys(members@)),
            Ty::Optional(inner) => TyView::Optional(Box::new(inner.model())),
            Ty::Union(members) => TyView::Union(tys(members@)),
            Ty::Array(element, length) => TyView::Array(Box::new(element.model()), length),
            Ty::Pointer { mutable, target } => TyView::Pointer {
                mutable,
                target: Box::new(target.model()),
            },
            Ty::Function { asynchronous, params, result } => TyView::Function {
                asynchronous,
                params: tys(params@),
                result: Box::new(result.model()),
            },
            Ty::Cell(inner) => TyView::Cell(Box::new(inner.model())),
            Ty::Parameter(name) => TyView::Parameter(name@),
        }
    }
}

impl View for Ty {
    type V = TyView;

    open spec fn view(&self) -> TyView {
        self.model()
    }
}

/// `<A, B>`, or nothing where there are no arguments.
pub open spec fn arguments_text(args: Seq<Seq<char>>) -> Seq<char> {
    if args.len() == 0 {
        Seq::empty()
    } else {
        "<"@ + joined(args, ", "@) + ">"@
    }
}

/// How each of several types is written.
pub open spec fn ty_texts(types: Seq<TyView>) -> Seq<Seq<char>>
    decreases types,
{
    Seq::new(
        types.len(),
        |i: int|
            if 0 <= i < types.len() {
                types[i].text()
            } else {
                arbitrary()
            },
    )
}

/// How each of several fields is written.
pub open spec fn field_texts(fields: Seq<(Seq<char>, TyView)>) -> Seq<Seq<char>>
    decreases fields,
{
    Seq::new(
        fields.len(),
        |i: int|
            if 0 <= i < fields.len() {
                fields[i].0 + ": "@ + fields[i].1.text()
            } else {
                arbitrary()
            },
    )
}

/// Several types, each with its parameters filled in.
pub open spec fn substitute_all(
    types: Seq<TyView>,
    params: Seq<Seq<char>>,
    args: Seq<TyView>,
) -> Seq<TyView>
    decreases types,
{
    Seq::new(
        types.len(),
        |i: int|
            if 0 <= i < types.len() {
                types[i].substitute(params, args)
            } else {
                arbitrary()
            },
    )
}

/// Several named types, each with its parameters filled in.
pub open spec fn substitute_fields(
    fields: Seq<(Seq<char>, TyView)>,
    params: Seq<Seq<char>>,
    args: Seq<TyView>,
) -> Seq<(Seq<char>, TyView)>
    decreases fields,
{
    Seq::new(
        fields.len(),
        |i: int|
            if 0 <= i < fields.len() {
                (fields[i].0, fields[i].1.substitute(params, args))
            } else {
                arbitrary()
            },
    )
}

/// Whether the parameter `name` stands somewhere in one of the types.
pub open spec fn any_mentions(types: Seq<TyView>, name: Seq<char>) -> bool
    decreases types,
{
    exists|i: int| 0 <= i < types.len() && (#[trigger] types[i]).mentions(name)
}

/// Whether the parameter `name` stands somewhere in the type of one of the
/// fields.
pub open spec fn any_field_mentions(fields: Seq<(Seq<char>, TyView)>, name: Seq<char>) -> bool
    decreases fields,
{
    exists|i: int| 0 <= i < fields.len() && (#[trigger] fields[i]).1.mentions(name)
}

/// Whether the parameter `name` stands in a cell of one of the types.
pub open spec fn any_cell_mentions(types: Seq<TyView>, name: Seq<char>) -> bool
    decreases types,
{
    exists|i: int| 0 <= i < types.len() && (#[trigger] types[i]).cell_mentions(name)
}

/// Whether the parameter `name` stands in a cell of the type of one of the
/// fields.
pub open spec fn any_field_cell_mentions(
    fields: Seq<(Seq<char>, TyView)>,
    name: Seq<char>,
) -> bool
    decreases fields,
{
    exists|i: int| 0 <= i < fields.len() && (#[trigger] fields[i]).1.cell_mentions(name)
}

/// Whether `nil` is known to inhabit any of the types.
pub open spec fn any_holds_nil(types: Seq<TyView>) -> bool
    decreases types,
{
    exists|i: int| 0 <= i < types.len() && (#[trigger] types[i]).holds_nil()
}

/// Whether an optional stands directly in an optional in one of the types.
pub open spec fn any_nests(types: Seq<TyView>) -> bool
    decreases types,
{
    exists|i: int| 0 <= i < types.len() && (#[trigger] types[i]).nests()
}

/// Whether an optional stands directly in an optional in the type of one of the
/// fields.
pub open spec fn any_field_nests(fields: Seq<(Seq<char>, TyView)>) -> bool
    decreases fields,
{
    exists|i: int| 0 <= i < fields.len() && (#[trigger] fields[i]).1.nests()
}

impl TyView {
    /// `int`, which is `i64` on every target.
    pub open spec fn integer() -> TyView {
        TyView::Int(IntTy::I64)
    }

    /// What the type holds when it holds something.
    pub open spec fn present(self) -> TyView {
        match self {
            TyView::Optional(inner) => *inner,
            other => other,
        }
    }

    /// The type, or nothing. What may be nothing already is that.
    pub open spec fn optional(self) -> TyView {
        match self {
            TyView::Optional(_) => self,
            _ => TyView::Optional(Box::new(self)),
        }
    }

    /// Whether `nil` is known to inhabit the type.
    pub open spec fn holds_nil(self) -> bool
        decreases self,
    {
        match self {
            TyView::Nil | TyView::Dynamic | TyView::Optional(_) => true,
            TyView::Union(members) => any_holds_nil(members),
            _ => false,
        }
    }

    /// Whether an optional stands directly in an optional somewhere in the
    /// type. No type of a lowered program is like that.
    pub open spec fn nests(self) -> bool
        decreases self,
    {
        match self {
            TyView::Named { args, .. } => any_nests(args),
            TyView::Builtin { args, .. } => any_nests(args),
            TyView::Union(members) => any_nests(members),
            TyView::Tuple(members) => any_nests(members),
            TyView::Record(fields) => any_field_nests(fields),
            TyView::Optional(inner) => *inner is Optional || inner.nests(),
            TyView::Cell(inner) => inner.nests(),
            TyView::Array(inner, _) => inner.nests(),
            TyView::Pointer { target, .. } => target.nests(),
            TyView::Function { params, result, .. } => any_nests(params) || result.nests(),
            _ => false,
        }
    }

    /// The type with each of `params` replaced by the argument filling it. A
    /// parameter that is not listed, or that no argument fills, stays.
    pub open spec fn substitute(self, params: Seq<Seq<char>>, args: Seq<TyView>) -> TyView
        decreases self,
    {
        if params.len() == 0 {
            self
        } else {
            match self {
                TyView::Parameter(name) => match position(params, name) {
                    Some(index) => if index < args.len() {
                        args[index]
                    } else {
                        self
                    },
                    None => self,
                },
                TyView::Named { id, args: held } => TyView::Named {
                    id,
                    args: substitute_all(held, params, args),
                },
                TyView::Builtin { kind, args: held } => TyView::Builtin {
                    kind,
                    args: substitute_all(held, params, args),
                },
                TyView::Record(fields) => TyView::Record(substitute_fields(fields, params, args)),
                TyView::Tuple(members) => TyView::Tuple(substitute_all(members, params, args)),
                TyView::Union(members) => TyView::Union(substitute_all(members, params, args)),
                TyView::Optional(inner) => inner.substitute(params, args).optional(),
                TyView::Cell(inner) => TyView::Cell(Box::new(inner.substitute(params, args))),
                TyView::Array(element, length) => TyView::Array(
                    Box::new(element.substitute(params, args)),
                    length,
                ),
                TyView::Pointer { mutable, target } => TyView::Pointer {
                    mutable,
                    target: Box::new(target.substitute(params, args)),
                },
                TyView::Function { asynchronous, params: takes, result } => TyView::Function {
                    asynchronous,
                    params: substitute_all(takes, params, args),
                    result: Box::new(result.substitute(params, args)),
                },
                other => other,
            }
        }
    }

    /// Whether the parameter `name` stands somewhere in the type.
    pub open spec fn mentions(self, name: Seq<char>) -> bool
        decreases self,
    {
        match self {
            TyView::Parameter(held) => held == name,
            TyView::Named { args, .. } => any_mentions(args, name),
            TyView::Builtin { args, .. } => any_mentions(args, name),
            TyView::Union(members) => any_mentions(members, name),
            TyView::Tuple(members) => any_mentions(members, name),
            TyView::Record(fields) => any_field_mentions(fields, name),
            TyView::Optional(inner) => inner.mentions(name),
            TyView::Cell(inner) => inner.mentions(name),
            TyView::Array(inner, _) => inner.mentions(name),
            TyView::Pointer { target, .. } => target.mentions(name),
            TyView::Function { params, result, .. } => any_mentions(params, name)
                || result.mentions(name),
            _ => false,
        }
    }

    /// Whether the parameter `name` stands in a cell somewhere in the type.
    pub open spec fn cell_mentions(self, name: Seq<char>) -> bool
        decreases self,
    {
        match self {
            TyView::Cell(inner) => inner.mentions(name),
            TyView::Named { args, .. } => any_cell_mentions(args, name),
            TyView::Builtin { args, .. } => any_cell_mentions(args, name),
            TyView::Union(members) => any_cell_mentions(members, name),
            TyView::Tuple(members) => any_cell_mentions(members, name),
            TyView::Record(fields) => any_field_cell_mentions(fields, name),
            TyView::Optional(inner) => inner.cell_mentions(name),
            TyView::Array(inner, _) => inner.cell_mentions(name),
            TyView::Pointer { target, .. } => target.cell_mentions(name),
            TyView::Function { params, result, .. } => any_cell_mentions(params, name)
                || result.cell_mentions(name),
            _ => false,
        }
    }

    /// Whether some parameter stands in the type.
    pub open spec fn generic(self) -> bool {
        exists|name: Seq<char>| self.mentions(name)
    }

    /// How the type is written.
    pub open spec fn text(self) -> Seq<char>
        decreases self,
    {
        match self {
            TyView::Unit => "()"@,
            TyView::Nil => "nil"@,
            TyView::Never => "never"@,
            TyView::Dynamic => "dynamic"@,
            TyView::Bool => "bool"@,
            TyView::Int(held) => held.text(),
            TyView::Float(held) => held.text(),
            TyView::Char => "char"@,
            TyView::Str => "string"@,
            TyView::Bytes => "bytes"@,
            TyView::Error => "Error"@,
            TyView::Named { id, args } => "type"@ + decimal(id.0 as nat) + arguments_text(
                ty_texts(args),
            ),
            TyView::Builtin { kind, args } => kind.text() + arguments_text(ty_texts(args)),
            TyView::Record(fields) => "{ "@ + joined(field_texts(fields), ", "@) + " }"@,
            TyView::Tuple(members) => "("@ + joined(ty_texts(members), ", "@) + ")"@,
            TyView::Optional(inner) => inner.text() + "?"@,
            TyView::Cell(inner) => "cell<"@ + inner.text() + ">"@,
            TyView::Union(members) => joined(ty_texts(members), " | "@),
            TyView::Array(element, length) => "["@ + element.text() + "; "@ + decimal(
                length as nat,
            ) + "]"@,
            TyView::Pointer { mutable, target } => (if mutable {
                "*mut "@
            } else {
                "*const "@
            }) + target.text(),
            TyView::Function { asynchronous, params, result } => (if asynchronous {
                "async ("@
            } else {
                "("@
            }) + joined(ty_texts(params), ", "@) + ") -> "@ + result.text(),
            TyView::Parameter(name) => name,
        }
    }
}

impl Clone for Ty {
    fn clone(&self) -> (copy: Ty)
        ensures
            copy@ == self@,
        decreases self,
    {
        match self {
            Ty::Unit => Ty::Unit,
            Ty::Nil => Ty::Nil,
            Ty::Never => Ty::Never,
            Ty::Dynamic => Ty::Dynamic,
            Ty::Bool => Ty::Bool,
            Ty::Int(held) => Ty::Int(*held),
            Ty::Float(held) => Ty::Float(*held),
            Ty::Char => Ty::Char,
            Ty::Str => Ty::Str,
            Ty::Bytes => Ty::Bytes,
            Ty::Error => Ty::Error,
            Ty::Named { id, args } => Ty::Named { id: *id, args: clone_tys(args) },
            Ty::Builtin { kind, args } => Ty::Builtin { kind: *kind, args: clone_tys(args) },
            Ty::Record(fields) => Ty::Record(clone_named_tys(fields)),
            Ty::Tuple(members) => Ty::Tuple(clone_tys(members)),
            Ty::Optional(inner) => Ty::Optional(Box::new((&**inner).clone())),
            Ty::Union(members) => Ty::Union(clone_tys(members)),
            Ty::Array(element, length) => Ty::Array(Box::new((&**element).clone()), *length),
            Ty::Pointer { mutable, target } => Ty::Pointer {
                mutable: *mutable,
                target: Box::new((&**target).clone()),
            },
            Ty::Function { asynchronous, params, result } => Ty::Function {
                asynchronous: *asynchronous,
                params: clone_tys(params),
                result: Box::new((&**result).clone()),
            },
            Ty::Cell(inner) => Ty::Cell(Box::new((&**inner).clone())),
            Ty::Parameter(name) => Ty::Parameter(name.clone()),
        }
    }
}

/// A copy of each type.
pub fn clone_tys(types: &Vec<Ty>) -> (copy: Vec<Ty>)
    ensures
        tys(copy@) == tys(types@),
    decreases types,
{
    let mut copied: Vec<Ty> = Vec::new();
    let mut i: usize = 0;
    while i < types.len()
        invariant
            i <= types.len(),
            copied@.len() == i,
            forall|j: int| 0 <= j < i ==> (#[trigger] copied@[j]).model() == types@[j].model(),
        decreases types.len() - i,
    {
        copied.push(types[i].clone());
        i += 1;
    }
    assert(tys(copied@) =~= tys(types@));
    copied
}

/// A copy of each named type.
pub fn clone_named_tys(fields: &Vec<(String, Ty)>) -> (copy: Vec<(String, Ty)>)
    ensures
        named_tys(copy@) == named_tys(fields@),
    decreases fields,
{
    let mut copied: Vec<(String, Ty)> = Vec::new();
    let mut i: usize = 0;
    while i < fields.len()
        invariant
            i <= fields.len(),
            copied@.len() == i,
            forall|j: int|
                0 <= j < i ==> (#[trigger] copied@[j]).0@ == fields@[j].0@ && copied@[j].1.model()
                    == fields@[j].1.model(),
        decreases fields.len() - i,
    {
        let field = &fields[i];
        assert(decreases_to!(fields => fields@));
        assert(decreases_to!(fields@ => fields@[i as int]));
        assert(decreases_to!(fields@[i as int] => fields@[i as int].1));
        copied.push((field.0.clone(), field.1.clone()));
        i += 1;
    }
    assert(named_tys(copied@) =~= named_tys(fields@));
    copied
}

/// A copy of an optional type.
pub fn clone_maybe_ty(held: &Option<Ty>) -> (copy: Option<Ty>)
    ensures
        maybe_ty(copy) == maybe_ty(*held),
{
    match held {
        Some(ty) => Some(ty.clone()),
        None => None,
    }
}

impl PartialEq for Ty {
    fn eq(&self, other: &Ty) -> (same: bool) {
        self.same(other)
    }
}

impl vstd::std_specs::cmp::PartialEqSpecImpl for Ty {
    open spec fn obeys_eq_spec() -> bool {
        true
    }

    open spec fn eq_spec(&self, other: &Ty) -> bool {
        self@ == other@
    }
}

/// Whether two lists hold the same types in the same order.
pub fn same_tys(left: &Vec<Ty>, right: &Vec<Ty>) -> (same: bool)
    ensures
        same == (tys(left@) == tys(right@)),
    decreases left,
{
    if left.len() != right.len() {
        assert(tys(left@).len() != tys(right@).len());
        return false;
    }
    let mut i: usize = 0;
    while i < left.len()
        invariant
            i <= left.len(),
            left.len() == right.len(),
            forall|j: int| 0 <= j < i ==> (#[trigger] left@[j]).model() == right@[j].model(),
        decreases left.len() - i,
    {
        if !left[i].same(&right[i]) {
            assert(tys(left@)[i as int] != tys(right@)[i as int]);
            return false;
        }
        i += 1;
    }
    assert(tys(left@) =~= tys(right@));
    true
}

/// Whether two lists hold the same named types in the same order.
pub fn same_named_tys(left: &Vec<(String, Ty)>, right: &Vec<(String, Ty)>) -> (same: bool)
    ensures
        same == (named_tys(left@) == named_tys(right@)),
    decreases left,
{
    if left.len() != right.len() {
        assert(named_tys(left@).len() != named_tys(right@).len());
        return false;
    }
    let mut i: usize = 0;
    while i < left.len()
        invariant
            i <= left.len(),
            left.len() == right.len(),
            forall|j: int|
                0 <= j < i ==> (#[trigger] left@[j]).0@ == right@[j].0@ && left@[j].1.model()
                    == right@[j].1.model(),
        decreases left.len() - i,
    {
        assert(decreases_to!(left => left@));
        assert(decreases_to!(left@ => left@[i as int]));
        assert(decreases_to!(left@[i as int] => left@[i as int].1));
        if left[i].0 != right[i].0 || !left[i].1.same(&right[i].1) {
            assert(named_tys(left@)[i as int] != named_tys(right@)[i as int]);
            return false;
        }
        i += 1;
    }
    assert(named_tys(left@) =~= named_tys(right@));
    true
}

impl Ty {
    /// `int`, which is `i64` on every target.
    #[must_use]
    pub fn integer() -> (ty: Ty)
        ensures
            ty@ == TyView::integer(),
    {
        Ty::Int(IntTy::I64)
    }

    /// Whether two types are the same type.
    pub fn same(&self, other: &Ty) -> (same: bool)
        ensures
            same == (self@ == other@),
        decreases self,
    {
        match (self, other) {
            (Ty::Unit, Ty::Unit) => true,
            (Ty::Nil, Ty::Nil) => true,
            (Ty::Never, Ty::Never) => true,
            (Ty::Dynamic, Ty::Dynamic) => true,
            (Ty::Bool, Ty::Bool) => true,
            (Ty::Int(a), Ty::Int(b)) => *a == *b,
            (Ty::Float(a), Ty::Float(b)) => *a == *b,
            (Ty::Char, Ty::Char) => true,
            (Ty::Str, Ty::Str) => true,
            (Ty::Bytes, Ty::Bytes) => true,
            (Ty::Error, Ty::Error) => true,
            (Ty::Named { id: a, args: x }, Ty::Named { id: b, args: y }) => *a == *b && same_tys(
                x,
                y,
            ),
            (Ty::Builtin { kind: a, args: x }, Ty::Builtin { kind: b, args: y }) => *a == *b
                && same_tys(x, y),
            (Ty::Record(a), Ty::Record(b)) => same_named_tys(a, b),
            (Ty::Tuple(a), Ty::Tuple(b)) => same_tys(a, b),
            (Ty::Optional(a), Ty::Optional(b)) => a.same(b),
            (Ty::Union(a), Ty::Union(b)) => same_tys(a, b),
            (Ty::Array(a, m), Ty::Array(b, n)) => *m == *n && a.same(b),
            (Ty::Pointer { mutable: m, target: a }, Ty::Pointer { mutable: n, target: b }) => *m
                == *n && a.same(b),
            (
                Ty::Function { asynchronous: m, params: x, result: a },
                Ty::Function { asynchronous: n, params: y, result: b },
            ) => *m == *n && same_tys(x, y) && a.same(b),
            (Ty::Cell(a), Ty::Cell(b)) => a.same(b),
            (Ty::Parameter(a), Ty::Parameter(b)) => *a == *b,
            _ => false,
        }
    }

    /// Whether `nil` inhabits the type. Of a type parameter that is not known
    /// before something fills it.
    #[must_use]
    pub fn is_optional(&self) -> (optional: bool)
        ensures
            optional == self@.holds_nil(),
        decreases self,
    {
        match self {
            Ty::Nil | Ty::Dynamic | Ty::Optional(_) => true,
            Ty::Union(members) => {
                let found = any_optional(members);
                assert(self@.holds_nil() == any_holds_nil(tys(members@)));
                found
            },
            _ => false,
        }
    }

    /// The type, or nothing. What may be nothing already is that.
    #[must_use]
    pub fn optional(self) -> (optional: Ty)
        ensures
            optional@ == self@.optional(),
    {
        match self {
            Ty::Optional(inner) => Ty::Optional(inner),
            other => Ty::Optional(Box::new(other)),
        }
    }

    /// What the type holds when it holds something. Anything that is not
    /// optional is already that.
    #[must_use]
    pub fn without_optional(self) -> (present: Ty)
        ensures
            present@ == self@.present(),
    {
        match self {
            Ty::Optional(inner) => *inner,
            other => other,
        }
    }

    /// This type with each of `params` replaced by the argument filling it. An
    /// optional whose inner type is filled with an optional is that optional.
    #[must_use]
    pub fn substitute(&self, params: &Vec<String>, args: &Vec<Ty>) -> (filled: Ty)
        ensures
            filled@ == self@.substitute(names(params@), tys(args@)),
        decreases self,
    {
        if params.len() == 0 {
            return self.clone();
        }
        match self {
            Ty::Parameter(name) => match position_of(params, name) {
                Some(index) => if index < args.len() {
                    args[index].clone()
                } else {
                    self.clone()
                },
                None => self.clone(),
            },
            Ty::Named { id, args: held } => Ty::Named {
                id: *id,
                args: substitute_each(held, params, args),
            },
            Ty::Builtin { kind, args: held } => Ty::Builtin {
                kind: *kind,
                args: substitute_each(held, params, args),
            },
            Ty::Record(fields) => Ty::Record(substitute_named(fields, params, args)),
            Ty::Tuple(members) => Ty::Tuple(substitute_each(members, params, args)),
            Ty::Union(members) => Ty::Union(substitute_each(members, params, args)),
            Ty::Optional(inner) => inner.substitute(params, args).optional(),
            Ty::Cell(inner) => Ty::Cell(Box::new(inner.substitute(params, args))),
            Ty::Array(element, length) => Ty::Array(
                Box::new(element.substitute(params, args)),
                *length,
            ),
            Ty::Pointer { mutable, target } => Ty::Pointer {
                mutable: *mutable,
                target: Box::new(target.substitute(params, args)),
            },
            Ty::Function { asynchronous, params: takes, result } => Ty::Function {
                asynchronous: *asynchronous,
                params: substitute_each(takes, params, args),
                result: Box::new(result.substitute(params, args)),
            },
            Ty::Unit | Ty::Nil | Ty::Never | Ty::Dynamic | Ty::Bool | Ty::Int(_) | Ty::Float(
                _,
            ) | Ty::Char | Ty::Str | Ty::Bytes | Ty::Error => self.clone(),
        }
    }

    /// Whether the type still mentions a parameter, and so has no layout
    /// until monomorphization has run.
    #[must_use]
    pub fn is_generic(&self) -> (generic: bool)
        ensures
            generic == self@.generic(),
        decreases self,
    {
        match self {
            Ty::Parameter(name) => {
                assert(self@.mentions(name@));
                true
            },
            Ty::Named { args, .. } => {
                let found = any_generic(args);
                proof {
                    members_decide(self@, tys(args@));
                }
                found
            },
            Ty::Builtin { args, .. } => {
                let found = any_generic(args);
                proof {
                    members_decide(self@, tys(args@));
                }
                found
            },
            Ty::Union(args) => {
                let found = any_generic(args);
                proof {
                    members_decide(self@, tys(args@));
                }
                found
            },
            Ty::Tuple(args) => {
                let found = any_generic(args);
                proof {
                    members_decide(self@, tys(args@));
                }
                found
            },
            Ty::Record(fields) => {
                let found = any_field_generic(fields);
                proof {
                    fields_decide(self@, named_tys(fields@));
                }
                found
            },
            Ty::Optional(inner) => {
                let found = inner.is_generic();
                proof {
                    inner_decides(self@, inner@);
                }
                found
            },
            Ty::Cell(inner) => {
                let found = inner.is_generic();
                proof {
                    inner_decides(self@, inner@);
                }
                found
            },
            Ty::Array(inner, _) => {
                let found = inner.is_generic();
                proof {
                    inner_decides(self@, inner@);
                }
                found
            },
            Ty::Pointer { target, .. } => {
                let found = target.is_generic();
                proof {
                    inner_decides(self@, target@);
                }
                found
            },
            Ty::Function { params, result, .. } => {
                let found = any_generic(params) || result.is_generic();
                proof {
                    signature_decides(self@, tys(params@), result@);
                }
                found
            },
            Ty::Unit | Ty::Nil | Ty::Never | Ty::Dynamic | Ty::Bool | Ty::Int(_) | Ty::Float(
                _,
            ) | Ty::Char | Ty::Str | Ty::Bytes | Ty::Error => false,
        }
    }

    /// How the type is written.
    #[must_use]
    pub fn to_text(&self) -> (out: String)
        ensures
            out@ == self@.text(),
        decreases self,
    {
        match self {
            Ty::Unit => "()".to_owned(),
            Ty::Nil => "nil".to_owned(),
            Ty::Never => "never".to_owned(),
            Ty::Dynamic => "dynamic".to_owned(),
            Ty::Bool => "bool".to_owned(),
            Ty::Int(held) => held.spelling().to_owned(),
            Ty::Float(held) => held.spelling().to_owned(),
            Ty::Char => "char".to_owned(),
            Ty::Str => "string".to_owned(),
            Ty::Bytes => "bytes".to_owned(),
            Ty::Error => "Error".to_owned(),
            Ty::Named { id, args } => {
                let mut out = "type".to_owned();
                out.append(number(id.0 as u64).as_str());
                out.append(arguments(args).as_str());
                out
            },
            Ty::Builtin { kind, args } => {
                let mut out = kind.spelling().to_owned();
                out.append(arguments(args).as_str());
                out
            },
            Ty::Record(fields) => {
                let mut out = "{ ".to_owned();
                out.append(join(&field_spellings(fields), ", ").as_str());
                out.append(" }");
                out
            },
            Ty::Tuple(members) => {
                let mut out = "(".to_owned();
                out.append(join(&spellings(members), ", ").as_str());
                out.append(")");
                out
            },
            Ty::Optional(inner) => {
                let mut out = inner.to_text();
                out.append("?");
                out
            },
            Ty::Cell(inner) => {
                let mut out = "cell<".to_owned();
                out.append(inner.to_text().as_str());
                out.append(">");
                out
            },
            Ty::Union(members) => join(&spellings(members), " | "),
            Ty::Array(element, length) => {
                let mut out = "[".to_owned();
                out.append(element.to_text().as_str());
                out.append("; ");
                out.append(number(*length).as_str());
                out.append("]");
                out
            },
            Ty::Pointer { mutable, target } => {
                let mut out = if *mutable {
                    "*mut ".to_owned()
                } else {
                    "*const ".to_owned()
                };
                out.append(target.to_text().as_str());
                out
            },
            Ty::Function { asynchronous, params, result } => {
                let mut out = if *asynchronous {
                    "async (".to_owned()
                } else {
                    "(".to_owned()
                };
                out.append(join(&spellings(params), ", ").as_str());
                out.append(") -> ");
                out.append(result.to_text().as_str());
                out
            },
            Ty::Parameter(name) => name.clone(),
        }
    }
}

proof fn members_decide(ty: TyView, members: Seq<TyView>)
    requires
        match ty {
            TyView::Named { args, .. } => args == members,
            TyView::Builtin { args, .. } => args == members,
            TyView::Union(args) => args == members,
            TyView::Tuple(args) => args == members,
            _ => false,
        },
    ensures
        ty.generic() <==> exists|i: int| 0 <= i < members.len() && (#[trigger] members[i]).generic(),
{
    if exists|i: int| 0 <= i < members.len() && (#[trigger] members[i]).generic() {
        let i = choose|i: int| 0 <= i < members.len() && (#[trigger] members[i]).generic();
        let name = choose|name: Seq<char>| members[i].mentions(name);
        assert(any_mentions(members, name));
        assert(ty.mentions(name));
    }
    if ty.generic() {
        let name = choose|name: Seq<char>| ty.mentions(name);
        assert(any_mentions(members, name));
        let i = choose|i: int| 0 <= i < members.len() && (#[trigger] members[i]).mentions(name);
        assert(members[i].generic());
    }
}

proof fn fields_decide(ty: TyView, fields: Seq<(Seq<char>, TyView)>)
    requires
        ty == TyView::Record(fields),
    ensures
        ty.generic() <==> exists|i: int|
            0 <= i < fields.len() && (#[trigger] fields[i]).1.generic(),
{
    if exists|i: int| 0 <= i < fields.len() && (#[trigger] fields[i]).1.generic() {
        let i = choose|i: int| 0 <= i < fields.len() && (#[trigger] fields[i]).1.generic();
        let held = fields[i].1;
        let name = choose|name: Seq<char>| held.mentions(name);
        assert(fields[i].1.mentions(name));
        assert(any_field_mentions(fields, name));
        assert(ty.mentions(name));
    }
    if ty.generic() {
        let name = choose|name: Seq<char>| ty.mentions(name);
        assert(any_field_mentions(fields, name));
        let i = choose|i: int| 0 <= i < fields.len() && (#[trigger] fields[i]).1.mentions(name);
        assert(fields[i].1.generic());
    }
}

proof fn signature_decides(ty: TyView, takes: Seq<TyView>, gives: TyView)
    requires
        ty matches TyView::Function { params, result, .. } && params == takes && *result == gives,
    ensures
        ty.generic() <==> gives.generic() || exists|i: int|
            0 <= i < takes.len() && (#[trigger] takes[i]).generic(),
{
    if exists|i: int| 0 <= i < takes.len() && (#[trigger] takes[i]).generic() {
        let i = choose|i: int| 0 <= i < takes.len() && (#[trigger] takes[i]).generic();
        let name = choose|name: Seq<char>| takes[i].mentions(name);
        assert(any_mentions(takes, name));
        assert(ty.mentions(name));
    }
    if gives.generic() {
        let name = choose|name: Seq<char>| gives.mentions(name);
        assert(ty.mentions(name));
    }
    if ty.generic() {
        let name = choose|name: Seq<char>| ty.mentions(name);
        if gives.mentions(name) {
            assert(gives.generic());
        } else {
            assert(any_mentions(takes, name));
            let i = choose|i: int| 0 <= i < takes.len() && (#[trigger] takes[i]).mentions(name);
            assert(takes[i].generic());
        }
    }
}

proof fn inner_decides(ty: TyView, inner: TyView)
    requires
        match ty {
            TyView::Optional(held) => *held == inner,
            TyView::Cell(held) => *held == inner,
            TyView::Array(held, _) => *held == inner,
            TyView::Pointer { target, .. } => *target == inner,
            _ => false,
        },
    ensures
        ty.generic() <==> inner.generic(),
{
    if inner.generic() {
        let name = choose|name: Seq<char>| inner.mentions(name);
        assert(ty.mentions(name));
    }
    if ty.generic() {
        let name = choose|name: Seq<char>| ty.mentions(name);
        assert(inner.mentions(name));
    }
}

fn any_optional(types: &Vec<Ty>) -> (found: bool)
    ensures
        found == any_holds_nil(tys(types@)),
    decreases types,
{
    let mut i: usize = 0;
    while i < types.len()
        invariant
            i <= types.len(),
            forall|j: int| 0 <= j < i ==> !(#[trigger] tys(types@)[j]).holds_nil(),
        decreases types.len() - i,
    {
        assert(tys(types@)[i as int] == types@[i as int].model());
        if types[i].is_optional() {
            return true;
        }
        i += 1;
    }
    false
}

/// Whether any of the types mentions a parameter.
pub fn any_generic(types: &Vec<Ty>) -> (found: bool)
    ensures
        found <==> exists|i: int|
            0 <= i < tys(types@).len() && (#[trigger] tys(types@)[i]).generic(),
    decreases types,
{
    let mut i: usize = 0;
    while i < types.len()
        invariant
            i <= types.len(),
            forall|j: int| 0 <= j < i ==> !(#[trigger] tys(types@)[j]).generic(),
        decreases types.len() - i,
    {
        assert(tys(types@)[i as int] == types@[i as int].model());
        if types[i].is_generic() {
            return true;
        }
        i += 1;
    }
    false
}

fn any_field_generic(fields: &Vec<(String, Ty)>) -> (found: bool)
    ensures
        found <==> exists|i: int|
            0 <= i < named_tys(fields@).len() && (#[trigger] named_tys(fields@)[i]).1.generic(),
    decreases fields,
{
    let mut i: usize = 0;
    while i < fields.len()
        invariant
            i <= fields.len(),
            forall|j: int| 0 <= j < i ==> !(#[trigger] named_tys(fields@)[j]).1.generic(),
        decreases fields.len() - i,
    {
        assert(decreases_to!(fields => fields@));
        assert(decreases_to!(fields@ => fields@[i as int]));
        assert(decreases_to!(fields@[i as int] => fields@[i as int].1));
        assert(named_tys(fields@)[i as int].1 == fields@[i as int].1.model());
        if fields[i].1.is_generic() {
            return true;
        }
        i += 1;
    }
    false
}

/// Each of `types` with its parameters filled in.
pub fn substitute_each(types: &Vec<Ty>, params: &Vec<String>, args: &Vec<Ty>) -> (filled: Vec<Ty>)
    ensures
        tys(filled@) == substitute_all(tys(types@), names(params@), tys(args@)),
    decreases types,
{
    let mut filled: Vec<Ty> = Vec::new();
    let mut i: usize = 0;
    while i < types.len()
        invariant
            i <= types.len(),
            filled@.len() == i,
            forall|j: int|
                0 <= j < i ==> (#[trigger] filled@[j]).model() == types@[j].model().substitute(
                    names(params@),
                    tys(args@),
                ),
        decreases types.len() - i,
    {
        filled.push(types[i].substitute(params, args));
        i += 1;
    }
    assert(tys(filled@) =~= substitute_all(tys(types@), names(params@), tys(args@)));
    filled
}

fn substitute_named(
    fields: &Vec<(String, Ty)>,
    params: &Vec<String>,
    args: &Vec<Ty>,
) -> (filled: Vec<(String, Ty)>)
    ensures
        named_tys(filled@) == substitute_fields(named_tys(fields@), names(params@), tys(args@)),
    decreases fields,
{
    let mut filled: Vec<(String, Ty)> = Vec::new();
    let mut i: usize = 0;
    while i < fields.len()
        invariant
            i <= fields.len(),
            filled@.len() == i,
            forall|j: int|
                0 <= j < i ==> (#[trigger] filled@[j]).0@ == fields@[j].0@ && filled@[j].1.model()
                    == fields@[j].1.model().substitute(names(params@), tys(args@)),
        decreases fields.len() - i,
    {
        assert(decreases_to!(fields => fields@));
        assert(decreases_to!(fields@ => fields@[i as int]));
        assert(decreases_to!(fields@[i as int] => fields@[i as int].1));
        filled.push((fields[i].0.clone(), fields[i].1.substitute(params, args)));
        i += 1;
    }
    assert(named_tys(filled@) =~= substitute_fields(
        named_tys(fields@),
        names(params@),
        tys(args@),
    ));
    filled
}

fn arguments(args: &Vec<Ty>) -> (out: String)
    ensures
        out@ == arguments_text(ty_texts(tys(args@))),
    decreases args, 1int,
{
    if args.len() == 0 {
        return String::new();
    }
    let mut out = "<".to_owned();
    out.append(join(&spellings(args), ", ").as_str());
    out.append(">");
    out
}

/// How each of several types is written.
pub fn spellings(types: &Vec<Ty>) -> (out: Vec<String>)
    ensures
        names(out@) == ty_texts(tys(types@)),
    decreases types, 0int,
{
    let mut out: Vec<String> = Vec::new();
    let mut i: usize = 0;
    while i < types.len()
        invariant
            i <= types.len(),
            out@.len() == i,
            forall|j: int| 0 <= j < i ==> (#[trigger] out@[j])@ == types@[j].model().text(),
        decreases types.len() - i,
    {
        out.push(types[i].to_text());
        i += 1;
    }
    assert(names(out@) =~= ty_texts(tys(types@)));
    out
}

fn field_spellings(fields: &Vec<(String, Ty)>) -> (out: Vec<String>)
    ensures
        names(out@) == field_texts(named_tys(fields@)),
    decreases fields, 0int,
{
    let mut out: Vec<String> = Vec::new();
    let mut i: usize = 0;
    while i < fields.len()
        invariant
            i <= fields.len(),
            out@.len() == i,
            forall|j: int|
                0 <= j < i ==> (#[trigger] out@[j])@ == fields@[j].0@ + ": "@
                    + fields@[j].1.model().text(),
        decreases fields.len() - i,
    {
        assert(decreases_to!(fields => fields@));
        assert(decreases_to!(fields@ => fields@[i as int]));
        assert(decreases_to!(fields@[i as int] => fields@[i as int].1));
        let mut field = fields[i].0.clone();
        field.append(": ");
        field.append(fields[i].1.to_text().as_str());
        out.push(field);
        i += 1;
    }
    assert(names(out@) =~= field_texts(named_tys(fields@)));
    out
}

/// A type that mentions none of the parameters an argument fills is itself with
/// them filled in.
pub proof fn unmentioned_stay(ty: TyView, params: Seq<Seq<char>>, args: Seq<TyView>)
    requires
        !ty.nests(),
        forall|i: int|
            0 <= i < params.len() && i < args.len() ==> !ty.mentions(#[trigger] params[i]),
    ensures
        ty.substitute(params, args) == ty,
    decreases ty, 0nat,
{
    match ty {
        TyView::Parameter(name) => {
            position_is_first(params, name);
        },
        TyView::Named { args: held, .. } => {
            each_unmentioned_stay(ty, held, params, args);
        },
        TyView::Builtin { args: held, .. } => {
            each_unmentioned_stay(ty, held, params, args);
        },
        TyView::Tuple(members) => {
            each_unmentioned_stay(ty, members, params, args);
        },
        TyView::Union(members) => {
            each_unmentioned_stay(ty, members, params, args);
        },
        TyView::Record(fields) => {
            assert forall|i: int| 0 <= i < fields.len() implies (#[trigger] fields[i]).1.substitute(
                params,
                args,
            ) == fields[i].1 by {
                assert(!any_field_nests(fields));
                assert forall|k: int| 0 <= k < params.len() && k < args.len() implies !fields[i]
                    .1.mentions(#[trigger] params[k]) by {
                    assert(!any_field_mentions(fields, params[k]));
                }
                assert(decreases_to!(fields => fields[i]));
                assert(decreases_to!(fields[i] => fields[i].1));
                unmentioned_stay(fields[i].1, params, args);
            }
            assert(substitute_fields(fields, params, args) =~= fields);
        },
        TyView::Optional(inner) => {
            unmentioned_stay(*inner, params, args);
        },
        TyView::Cell(inner) => {
            unmentioned_stay(*inner, params, args);
        },
        TyView::Array(inner, _) => {
            unmentioned_stay(*inner, params, args);
        },
        TyView::Pointer { target, .. } => {
            unmentioned_stay(*target, params, args);
        },
        TyView::Function { params: takes, result, .. } => {
            each_unmentioned_stay(ty, takes, params, args);
            unmentioned_stay(*result, params, args);
        },
        _ => {},
    }
}

proof fn each_unmentioned_stay(
    ty: TyView,
    members: Seq<TyView>,
    params: Seq<Seq<char>>,
    args: Seq<TyView>,
)
    requires
        decreases_to!(ty => members),
        !any_nests(members),
        forall|i: int|
            0 <= i < params.len() && i < args.len() ==> !ty.mentions(#[trigger] params[i]),
        forall|name: Seq<char>| #[trigger] any_mentions(members, name) ==> ty.mentions(name),
    ensures
        substitute_all(members, params, args) == members,
    decreases members, 1nat,
{
    assert forall|i: int| 0 <= i < members.len() implies (#[trigger] members[i]).substitute(
        params,
        args,
    ) == members[i] by {
        assert forall|k: int| 0 <= k < params.len() && k < args.len() implies !members[i].mentions(
            #[trigger] params[k],
        ) by {
            assert(!any_mentions(members, params[k]));
        }
        unmentioned_stay(members[i], params, args);
    }
    assert(substitute_all(members, params, args) =~= members);
}

/// Filling no parameters changes nothing.
pub proof fn nothing_filled(ty: TyView, args: Seq<TyView>)
    ensures
        ty.substitute(Seq::empty(), args) == ty,
{
}

/// A type that is not generic stays as it is.
pub proof fn concrete_types_stay(ty: TyView, params: Seq<Seq<char>>, args: Seq<TyView>)
    requires
        !ty.nests(),
        !ty.generic(),
    ensures
        ty.substitute(params, args) == ty,
{
    unmentioned_stay(ty, params, args);
}

/// Filling parameters never puts an optional in an optional.
pub proof fn filled_types_never_nest(ty: TyView, params: Seq<Seq<char>>, args: Seq<TyView>)
    requires
        params.len() > 0 || !ty.nests(),
        forall|i: int| 0 <= i < args.len() ==> !(#[trigger] args[i]).nests(),
    ensures
        !ty.substitute(params, args).nests(),
    decreases ty, 0nat,
{
    if params.len() > 0 {
        match ty {
            TyView::Parameter(name) => {
                position_is_first(params, name);
                if let Some(index) = position(params, name) {
                    assert(index < args.len() ==> !args[index].nests());
                }
            },
            TyView::Named { args: held, .. } => {
                each_filled_never_nests(held, params, args);
            },
            TyView::Builtin { args: held, .. } => {
                each_filled_never_nests(held, params, args);
            },
            TyView::Tuple(members) => {
                each_filled_never_nests(members, params, args);
            },
            TyView::Union(members) => {
                each_filled_never_nests(members, params, args);
            },
            TyView::Record(fields) => {
                let filled = substitute_fields(fields, params, args);
                assert forall|i: int| 0 <= i < filled.len() implies !(
                #[trigger] filled[i]).1.nests() by {
                    assert(decreases_to!(fields => fields[i]));
                    assert(decreases_to!(fields[i] => fields[i].1));
                    filled_types_never_nest(fields[i].1, params, args);
                }
                assert(!any_field_nests(filled));
            },
            TyView::Optional(inner) => {
                filled_types_never_nest(*inner, params, args);
            },
            TyView::Cell(inner) => {
                filled_types_never_nest(*inner, params, args);
            },
            TyView::Array(inner, _) => {
                filled_types_never_nest(*inner, params, args);
            },
            TyView::Pointer { target, .. } => {
                filled_types_never_nest(*target, params, args);
            },
            TyView::Function { params: takes, result, .. } => {
                each_filled_never_nests(takes, params, args);
                filled_types_never_nest(*result, params, args);
            },
            _ => {},
        }
    }
}

proof fn each_filled_never_nests(members: Seq<TyView>, params: Seq<Seq<char>>, args: Seq<TyView>)
    requires
        params.len() > 0,
        forall|i: int| 0 <= i < args.len() ==> !(#[trigger] args[i]).nests(),
    ensures
        !any_nests(substitute_all(members, params, args)),
    decreases members, 1nat,
{
    let filled = substitute_all(members, params, args);
    assert forall|i: int| 0 <= i < filled.len() implies !(#[trigger] filled[i]).nests() by {
        filled_types_never_nest(members[i], params, args);
    }
}

/// What a type mentions once its parameters are filled in, one of the
/// arguments mentions, or the type mentioned and nothing filled it.
pub proof fn filled_mentions(
    ty: TyView,
    params: Seq<Seq<char>>,
    args: Seq<TyView>,
    name: Seq<char>,
)
    requires
        ty.substitute(params, args).mentions(name),
    ensures
        any_mentions(args, name) || ty.mentions(name) && (!params.contains(name) || args.len()
            < params.len()),
    decreases ty, 0nat,
{
    if params.len() > 0 {
        match ty {
            TyView::Parameter(held) => {
                position_is_first(params, held);
                if let Some(index) = position(params, held) {
                    if index < args.len() {
                        assert(args[index].mentions(name));
                    }
                }
            },
            TyView::Named { args: held, .. } => {
                each_filled_mentions(held, params, args, name);
            },
            TyView::Builtin { args: held, .. } => {
                each_filled_mentions(held, params, args, name);
            },
            TyView::Tuple(members) => {
                each_filled_mentions(members, params, args, name);
            },
            TyView::Union(members) => {
                each_filled_mentions(members, params, args, name);
            },
            TyView::Record(fields) => {
                let filled = substitute_fields(fields, params, args);
                assert(any_field_mentions(filled, name));
                let i = choose|i: int| 0 <= i < filled.len() && (#[trigger] filled[i]).1.mentions(name);
                assert(filled[i].1 == fields[i].1.substitute(params, args));
                assert(decreases_to!(fields => fields[i]));
                assert(decreases_to!(fields[i] => fields[i].1));
                filled_mentions(fields[i].1, params, args, name);
                if fields[i].1.mentions(name) {
                    assert(any_field_mentions(fields, name));
                }
            },
            TyView::Optional(inner) => {
                filled_mentions(*inner, params, args, name);
            },
            TyView::Cell(inner) => {
                filled_mentions(*inner, params, args, name);
            },
            TyView::Array(inner, _) => {
                filled_mentions(*inner, params, args, name);
            },
            TyView::Pointer { target, .. } => {
                filled_mentions(*target, params, args, name);
            },
            TyView::Function { params: takes, result, .. } => {
                if result.substitute(params, args).mentions(name) {
                    filled_mentions(*result, params, args, name);
                } else {
                    each_filled_mentions(takes, params, args, name);
                }
            },
            _ => {},
        }
    }
}

proof fn each_filled_mentions(
    members: Seq<TyView>,
    params: Seq<Seq<char>>,
    args: Seq<TyView>,
    name: Seq<char>,
)
    requires
        any_mentions(substitute_all(members, params, args), name),
    ensures
        any_mentions(args, name) || any_mentions(members, name) && (!params.contains(name)
            || args.len() < params.len()),
    decreases members, 1nat,
{
    let filled = substitute_all(members, params, args);
    let i = choose|i: int| 0 <= i < filled.len() && (#[trigger] filled[i]).mentions(name);
    assert(filled[i] == members[i].substitute(params, args));
    filled_mentions(members[i], params, args, name);
    if members[i].mentions(name) {
        assert(any_mentions(members, name));
    }
}

/// A type whose every parameter is filled with a type that is not generic is
/// not generic any more.
pub proof fn filled_types_are_concrete(ty: TyView, params: Seq<Seq<char>>, args: Seq<TyView>)
    requires
        params.len() <= args.len(),
        forall|i: int| 0 <= i < args.len() ==> !(#[trigger] args[i]).generic(),
        forall|name: Seq<char>| #[trigger] ty.mentions(name) ==> params.contains(name),
    ensures
        !ty.substitute(params, args).generic(),
{
    let filled = ty.substitute(params, args);
    if filled.generic() {
        let name = choose|name: Seq<char>| filled.mentions(name);
        filled_mentions(ty, params, args, name);
        if any_mentions(args, name) {
            let i = choose|i: int| 0 <= i < args.len() && (#[trigger] args[i]).mentions(name);
            assert(args[i].generic());
        }
    }
}

} // verus!
