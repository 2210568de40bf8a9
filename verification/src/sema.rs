//! What the checker worked out about a program.

use vstd::prelude::*;

use crate::ast::BinaryOp;
use crate::inst::Overflow;
use crate::span::Span;

verus! {

/// A module of the program.
#[derive(Debug, Clone, Copy, PartialEq, Eq, Structural)]
pub struct ModuleId(pub u32);

/// A type the language has without declaring it.
#[derive(Debug, Clone, Copy, PartialEq, Eq, Structural)]
pub enum Primitive {
    Nil,
    Bool,
    I8,
    I16,
    I32,
    I64,
    U8,
    U16,
    U32,
    U64,
    Isize,
    Usize,
    F32,
    F64,
    Text,
    Bytes,
    Char,
    Never,
    Any,
    Unknown,
}

/// A generic type the language has without declaring it.
#[derive(Debug, Clone, Copy, PartialEq, Eq, Structural)]
pub enum Generic {
    Result,
    Error,
    List,
    MapTy,
    SetTy,
    FrozenList,
    FrozenMap,
    FrozenSet,
    RangeExclusive,
    RangeInclusive,
    ReversedRangeExclusive,
    ReversedRangeInclusive,
    Task,
}

/// A checked type.
#[derive(Debug)]
pub enum Type {
    Primitive(Primitive),
    Builtin { kind: Generic, args: Vec<Type> },
    Named { module: ModuleId, name: String, args: Vec<Type> },
    Parameter(String),
    Optional(Box<Type>),
    Union(Vec<Type>),
    Tuple(Vec<Type>),
    Record(Vec<(String, Type)>),
    Function { asynchronous: bool, sendable: bool, params: Vec<Type>, result: Box<Type> },
    Array(Box<Type>, u64),
    Pointer { mutable: bool, target: Box<Type> },
    /// A literal nothing asked a type of.
    IntegerLiteral,
    FloatLiteral,
    SequenceLiteral(Box<Type>),
    Intersection(Vec<Type>),
    /// What the checker could not work out.
    Unresolved,
}

/// A change to a collection that is written as a method.
#[derive(Debug, Clone, Copy, PartialEq, Eq, Structural)]
pub enum CollectionMutation {
    ListPush,
    ListPop,
    ListInsert,
    ListRemoveAt,
    MapRemove,
    SetInsert,
    SetRemove,
    Clear,
}

/// A function that is lowered in place.
#[derive(Debug, Clone, Copy, PartialEq, Eq, Structural)]
pub enum Intrinsic {
    ListNew,
    MapNew,
    SetNew,
    Identical,
    Error,
    Print,
    DebugAssert,
    Assert,
    Panic,
}

/// An operator with the overflow behavior a method names.
#[derive(Debug, Clone, Copy, PartialEq, Eq, Structural)]
pub struct OverflowMethod {
    pub op: BinaryOp,
    pub mode: Overflow,
}

/// A call that reaches no declaration.
#[derive(Debug, Clone, Copy, PartialEq, Eq, Structural)]
pub enum BuiltinCall {
    Freeze,
    CheckedIndex,
    Contains,
    OkOr,
    MapErr,
    Mutation(CollectionMutation),
    Overflow(OverflowMethod),
    Intrinsic(Intrinsic),
}

/// The protocol an operator goes through where its operands are not primitive,
/// and the method of it.
#[derive(Debug)]
pub struct ProtocolMethod {
    pub op: BinaryOp,
    pub protocol: String,
    pub method: String,
}

/// What the checker recorded, by the span of what it is about.
#[derive(Debug)]
pub struct Facts {
    /// The type of each expression.
    pub types: Vec<(Span, Type)>,
    /// The type each binding was declared with.
    pub bindings: Vec<(Span, Type)>,
    /// The declaration each call reaches.
    pub calls: Vec<(Span, Span)>,
    /// What each call that reaches no declaration is.
    pub builtins: Vec<(Span, BuiltinCall)>,
    /// What fills the type parameters of each generic call.
    pub type_args: Vec<(Span, Vec<Type>)>,
    /// The names something takes the address of.
    pub addressed: Vec<String>,
    /// The protocol of each operator that has one.
    pub protocols: Vec<ProtocolMethod>,
}

/// What is recorded first for `span`.
pub open spec fn recorded_at<T>(held: Seq<(Span, T)>, span: Span) -> Option<T>
    decreases held.len(),
{
    if held.len() == 0 {
        None
    } else if held[0].0 == span {
        Some(held[0].1)
    } else {
        recorded_at(held.skip(1), span)
    }
}

/// What is recorded first for `span`.
pub fn find_recorded<'a, T>(held: &'a Vec<(Span, T)>, span: Span) -> (found: Option<&'a T>)
    ensures
        match found {
            Some(value) => recorded_at(held@, span) == Some(*value),
            None => recorded_at(held@, span) is None,
        },
{
    let mut i: usize = 0;
    assert(held@.skip(0) =~= held@);
    while i < held.len()
        invariant
            i <= held.len(),
            recorded_at(held@, span) == recorded_at(held@.skip(i as int), span),
        decreases held.len() - i,
    {
        assert(held@.skip(i as int)[0] == held@[i as int]);
        assert(held@.skip(i as int).skip(1) =~= held@.skip(i + 1));
        if held[i].0 == span {
            return Some(&held[i].1);
        }
        i += 1;
    }
    None
}

impl Facts {
    /// The type of the expression at `span`.
    pub open spec fn spec_type_of(self, span: Span) -> Option<Type> {
        recorded_at(self.types@, span)
    }

    /// The type of the expression at `span`.
    pub fn type_of(&self, span: Span) -> (ty: Option<&Type>)
        ensures
            match ty {
                Some(held) => self.spec_type_of(span) == Some(*held),
                None => self.spec_type_of(span) is None,
            },
    {
        find_recorded(&self.types, span)
    }

    /// The type the binding at `span` was declared with.
    pub open spec fn spec_binding(self, span: Span) -> Option<Type> {
        recorded_at(self.bindings@, span)
    }

    /// The type the binding at `span` was declared with.
    pub fn binding(&self, span: Span) -> (ty: Option<&Type>)
        ensures
            match ty {
                Some(held) => self.spec_binding(span) == Some(*held),
                None => self.spec_binding(span) is None,
            },
    {
        find_recorded(&self.bindings, span)
    }

    /// The declaration the call at `span` reaches.
    pub open spec fn spec_call(self, span: Span) -> Option<Span> {
        recorded_at(self.calls@, span)
    }

    /// The declaration the call at `span` reaches.
    pub fn call(&self, span: Span) -> (declaration: Option<Span>)
        ensures
            declaration == self.spec_call(span),
    {
        match find_recorded(&self.calls, span) {
            Some(found) => Some(*found),
            None => None,
        }
    }

    /// What the call at `span` is, where it reaches no declaration.
    pub open spec fn spec_builtin(self, span: Span) -> Option<BuiltinCall> {
        recorded_at(self.builtins@, span)
    }

    /// What the call at `span` is, where it reaches no declaration.
    pub fn builtin(&self, span: Span) -> (call: Option<BuiltinCall>)
        ensures
            call == self.spec_builtin(span),
    {
        match find_recorded(&self.builtins, span) {
            Some(found) => Some(*found),
            None => None,
        }
    }

    /// What fills the type parameters of the call at `span`.
    pub open spec fn spec_type_args(self, span: Span) -> Option<Vec<Type>> {
        recorded_at(self.type_args@, span)
    }

    /// What fills the type parameters of the call at `span`.
    pub fn type_args(&self, span: Span) -> (args: Option<&Vec<Type>>)
        ensures
            match args {
                Some(held) => self.spec_type_args(span) == Some(*held),
                None => self.spec_type_args(span) is None,
            },
    {
        find_recorded(&self.type_args, span)
    }

    /// Whether something takes the address of `name`.
    pub open spec fn spec_addressed(self, name: Seq<char>) -> bool {
        crate::text::names(self.addressed@).contains(name)
    }

    /// Whether something takes the address of `name`.
    pub fn is_addressed(&self, name: &str) -> (addressed: bool)
        ensures
            addressed == self.spec_addressed(name@),
    {
        crate::text::is_named(&self.addressed, name)
    }

    /// Where `op` has a protocol, the first it has.
    pub open spec fn spec_protocol_of(self, op: BinaryOp) -> Option<(Seq<char>, Seq<char>)> {
        protocol_from(self.protocols@, op, 0)
    }

    /// Where `op` has a protocol, the first it has.
    pub fn protocol_of(&self, op: BinaryOp) -> (found: Option<&ProtocolMethod>)
        ensures
            match found {
                Some(held) => self.spec_protocol_of(op) == Some((held.protocol@, held.method@)),
                None => self.spec_protocol_of(op) is None,
            },
    {
        let mut i: usize = 0;
        while i < self.protocols.len()
            invariant
                i <= self.protocols.len(),
                self.spec_protocol_of(op) == protocol_from(self.protocols@, op, i as nat),
            decreases self.protocols.len() - i,
        {
            if self.protocols[i].op == op {
                return Some(&self.protocols[i]);
            }
            i += 1;
        }
        None
    }
}

/// The protocol of `op` that is listed first, from `from` on, and its method.
pub open spec fn protocol_from(
    held: Seq<ProtocolMethod>,
    op: BinaryOp,
    from: nat,
) -> Option<(Seq<char>, Seq<char>)>
    decreases held.len() - from,
{
    if from >= held.len() {
        None
    } else if held[from as int].op == op {
        Some((held[from as int].protocol@, held[from as int].method@))
    } else {
        protocol_from(held, op, from + 1)
    }
}

/// A parameter of a signature.
#[derive(Debug)]
pub struct ParamType {
    pub name: String,
    pub ty: Type,
    /// `...values`.
    pub variadic: bool,
}

/// What a declaration takes and gives back.
#[derive(Debug)]
pub struct Signature {
    pub span: Span,
    pub type_params: Vec<String>,
    /// Without `self`.
    pub params: Vec<ParamType>,
    pub result: Type,
    pub takes_self: bool,
    pub asynchronous: bool,
}

/// The signatures one name has.
#[derive(Debug)]
pub struct Overloads {
    pub name: String,
    pub signatures: Vec<Signature>,
}

/// A declared struct.
#[derive(Debug)]
pub struct StructType {
    pub type_params: Vec<String>,
    pub fields: Vec<(String, Type)>,
    pub reference: bool,
    pub properties: Vec<(String, Type)>,
    pub methods: Vec<Overloads>,
    pub implements: Vec<Type>,
}

/// What a variant carries.
#[derive(Debug)]
pub enum VariantType {
    Unit,
    Tuple(Vec<Type>),
    Record(Vec<(String, Type)>),
}

/// A declared enum.
#[derive(Debug)]
pub struct EnumType {
    pub type_params: Vec<String>,
    pub variants: Vec<(String, VariantType)>,
    /// What `@derive` wrote: an enum declares no members of its own.
    pub methods: Vec<Overloads>,
}

/// A declared interface.
#[derive(Debug)]
pub struct InterfaceType {
    pub type_params: Vec<String>,
    pub methods: Vec<Overloads>,
}

/// What a name declares.
#[derive(Debug)]
pub enum Decl {
    Function(Vec<Signature>),
    Struct(StructType),
    Enum(EnumType),
    Interface(InterfaceType),
    Extension { type_params: Vec<String>, target: Type, methods: Vec<Overloads> },
    /// One that makes no code: an alias, a decorator, a constant.
    Other,
}

/// A name and what it declares, in the order the names are read.
#[derive(Debug)]
pub struct Entry {
    pub module: ModuleId,
    pub name: String,
    pub decl: Decl,
}

/// A member `@derive` wrote.
#[derive(Debug)]
pub struct DerivedMember {
    pub span: Span,
    pub owner: Type,
    pub member: String,
}

/// Everything a program declares.
#[derive(Debug)]
pub struct Table {
    pub entries: Vec<Entry>,
    pub derived: Vec<DerivedMember>,
    /// The symbol each intrinsic the runtime provides is linked to.
    pub symbols: Vec<(String, String)>,
}

/// A module, where it is, and what it imports.
#[derive(Debug)]
pub struct Node {
    /// The path of its file, without the extension.
    pub path: String,
    pub ast: crate::ast::Module,
    pub imports: Vec<ModuleId>,
}

/// The modules of a program. A [`ModuleId`] is a position here.
#[derive(Debug)]
pub struct Graph {
    pub modules: Vec<Node>,
}

} // verus!
