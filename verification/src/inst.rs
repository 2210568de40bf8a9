//! Instructions, and what ends a block.

use vstd::prelude::*;

use crate::program::{BlockId, FuncId, SlotId};
use crate::span::Span;
use crate::text::names;
use crate::ty::{clone_tys, substitute_all, substitute_each, tys, Ty, TyView, TypeId};

verus! {

/// A value, produced once and never again.
#[derive(Debug, Clone, Copy, PartialEq, Eq, PartialOrd, Ord, Hash, Structural)]
pub struct Value(pub u32);

/// One instruction, and the source it came from.
#[derive(Debug, PartialEq)]
pub struct Inst {
    /// The value it produces, absent where it produces none.
    pub result: Option<Value>,
    pub kind: InstKind,
    pub span: Span,
}

/// An [`Inst`] with its sequences and names as mathematical values.
pub struct InstView {
    pub result: Option<Value>,
    pub kind: InstKindView,
    pub span: Span,
}

impl View for Inst {
    type V = InstView;

    open spec fn view(&self) -> InstView {
        InstView { result: self.result, kind: self.kind@, span: self.span }
    }
}

impl Clone for Inst {
    fn clone(&self) -> (copy: Inst)
        ensures
            copy@ == self@,
    {
        Inst { result: self.result, kind: self.kind.clone(), span: self.span }
    }
}

impl InstView {
    /// Whether every value and slot the instruction names is one of the first
    /// `values` and `slots`.
    pub open spec fn within(self, values: nat, slots: nat) -> bool {
        maybe_within(self.result, values) && self.kind.within(values, slots)
    }
}

/// A floating-point literal: the bits of the double it denotes, and how that
/// double is written in full.
#[derive(Debug, PartialEq, Eq)]
pub struct FloatLiteral {
    pub bits: u64,
    pub text: String,
}

/// A literal, once context has said what type it has.
#[derive(Debug, PartialEq)]
pub enum Const {
    /// The one value of [`Ty::Unit`], which a function with no result gives
    /// back.
    Unit,
    /// `nil`, or an absent optional.
    Nil,
    Bool(bool),
    /// An integer, in the bits of its type. A negative `i8` is stored as the
    /// `u64` those eight bits spell, so the width is read from the value's
    /// type rather than from here.
    Int(u64),
    Float(FloatLiteral),
    Char(char),
    Str(String),
    Bytes(Vec<u8>),
}

/// A [`Const`] with its contents as mathematical values.
pub enum ConstView {
    Unit,
    Nil,
    Bool(bool),
    Int(u64),
    Float { bits: u64, text: Seq<char> },
    Char(char),
    Str(Seq<char>),
    Bytes(Seq<u8>),
}

impl View for Const {
    type V = ConstView;

    open spec fn view(&self) -> ConstView {
        match *self {
            Const::Unit => ConstView::Unit,
            Const::Nil => ConstView::Nil,
            Const::Bool(held) => ConstView::Bool(held),
            Const::Int(held) => ConstView::Int(held),
            Const::Float(held) => ConstView::Float { bits: held.bits, text: held.text@ },
            Const::Char(held) => ConstView::Char(held),
            Const::Str(held) => ConstView::Str(held@),
            Const::Bytes(held) => ConstView::Bytes(held@),
        }
    }
}

impl Clone for Const {
    fn clone(&self) -> (copy: Const)
        ensures
            copy@ == self@,
    {
        match self {
            Const::Unit => Const::Unit,
            Const::Nil => Const::Nil,
            Const::Bool(held) => Const::Bool(*held),
            Const::Int(held) => Const::Int(*held),
            Const::Float(held) => Const::Float(
                FloatLiteral { bits: held.bits, text: held.text.clone() },
            ),
            Const::Char(held) => Const::Char(*held),
            Const::Str(held) => Const::Str(held.clone()),
            Const::Bytes(held) => {
                let copied = held.clone();
                assert(copied@ =~= held@);
                Const::Bytes(copied)
            },
        }
    }
}

/// `-x`, `~x`, `not x`.
#[derive(Debug, Clone, Copy, PartialEq, Eq, Structural)]
pub enum UnaryOp {
    Negate,
    Not,
    BitNot,
}

/// A binary operator, once the checker has settled what its operands are.
#[derive(Debug, Clone, Copy, PartialEq, Eq, Structural)]
pub enum BinaryOp {
    Add,
    Subtract,
    Multiply,
    Divide,
    IntegerDivide,
    Remainder,
    Power,
    /// `..`.
    Concat,
    Equal,
    NotEqual,
    Less,
    LessEqual,
    Greater,
    GreaterEqual,
    BitAnd,
    BitOr,
    BitXor,
    ShiftLeft,
    ShiftRight,
}

impl BinaryOp {
    /// Whether the operator can fail on values the type system allows.
    pub open spec fn traps(self) -> bool {
        self is Add || self is Subtract || self is Multiply || self is Divide
            || self is IntegerDivide || self is Remainder || self is Power
    }

    /// Whether the operator can fail on values the type system allows:
    /// overflow on an integer, and a zero divisor.
    #[must_use]
    pub fn can_trap(self) -> (traps: bool)
        ensures
            traps == self.traps(),
    {
        matches!(
            self,
            BinaryOp::Add | BinaryOp::Subtract | BinaryOp::Multiply | BinaryOp::Divide
                | BinaryOp::IntegerDivide | BinaryOp::Remainder | BinaryOp::Power
        )
    }
}

/// What arithmetic outside the range of its type gives.
#[derive(Debug, Clone, Copy, PartialEq, Eq, Structural)]
pub enum Overflow {
    /// The result modulo the width of the type.
    Wrap,
    /// The nearest value of the type.
    Saturate,
    /// Nothing.
    Check,
}

/// Where a value built by an instruction lives.
#[derive(Debug, Clone, Copy, PartialEq, Eq, Structural)]
pub enum Allocation {
    /// On the managed heap.
    Managed,
    /// In the frame of the function that builds it.
    Stack,
    /// In no memory at all.
    Registers,
}

/// What opened a task scope.
#[derive(Debug, Clone, Copy, PartialEq, Eq, Structural)]
pub enum ScopeKind {
    /// The body of an asynchronous function.
    Implicit,
    /// A block the source marks.
    Explicit,
    /// Work that runs though the task was cancelled.
    Cleanup,
}

/// One method of an interface, by the slot it occupies in the interface's
/// method table.
#[derive(Debug, Clone, Copy, PartialEq, Eq, Structural)]
pub struct MethodId {
    pub interface: TypeId,
    pub slot: u32,
}

/// What ends a program where it stands.
#[derive(Debug, Clone, Copy, PartialEq, Eq, Structural)]
pub enum Trap {
    /// An integer operation left the range of its type.
    IntegerOverflow,
    /// `//` or `%` by zero.
    DivisionByZero,
    /// An index outside what the container holds.
    Bounds,
    /// `unreachable()` was reached.
    Unreachable,
}

impl Trap {
    /// How the trap is written.
    pub open spec fn text(self) -> Seq<char> {
        match self {
            Trap::IntegerOverflow => "integer-overflow"@,
            Trap::DivisionByZero => "division-by-zero"@,
            Trap::Bounds => "bounds"@,
            Trap::Unreachable => "unreachable"@,
        }
    }

    /// How the trap is written.
    #[must_use]
    pub fn spelling(self) -> (spelled: &'static str)
        ensures
            spelled@ == self.text(),
    {
        match self {
            Trap::IntegerOverflow => "integer-overflow",
            Trap::DivisionByZero => "division-by-zero",
            Trap::Bounds => "bounds",
            Trap::Unreachable => "unreachable",
        }
    }
}

/// What an instruction does besides producing its result, which is what
/// decides how far a pass may move it.
#[derive(Debug, Clone, Copy, PartialEq, Eq, Structural)]
pub enum Effect {
    /// Nothing. The result depends only on the operands, so the instruction
    /// may be moved, repeated, or dropped where its result is unused.
    Pure,
    /// It may trap, and a trap stops the program at a point the source
    /// decides. It may move among instructions nothing can observe between,
    /// and never past one that can.
    Trap,
    /// It reads or writes state, or calls something that may. Its order
    /// against every other such instruction is what the program observes.
    State,
}

/// Whether each of the values is one of the first `count`.
pub open spec fn values_within(held: Seq<Value>, count: nat) -> bool {
    forall|i: int| 0 <= i < held.len() ==> (#[trigger] held[i]).0 < count
}

/// Whether each value of each pair is one of the first `count`.
pub open spec fn pairs_within(held: Seq<(Value, Value)>, count: nat) -> bool {
    forall|i: int|
        0 <= i < held.len() ==> (#[trigger] held[i]).0.0 < count && held[i].1.0 < count
}

/// Whether the value, where there is one, is one of the first `count`.
pub open spec fn maybe_within(held: Option<Value>, count: nat) -> bool {
    held matches Some(value) ==> value.0 < count
}

/// The value, where there is one.
pub open spec fn maybe_value(held: Option<Value>) -> Seq<Value> {
    match held {
        Some(value) => seq![value],
        None => Seq::empty(),
    }
}

/// The values of several pairs, each pair in order.
pub open spec fn flat_pairs(held: Seq<(Value, Value)>) -> Seq<Value> {
    Seq::new(
        2 * held.len(),
        |i: int|
            if i % 2 == 0 {
                held[i / 2].0
            } else {
                held[i / 2].1
            },
    )
}

/// Each value replaced by what the table gives for it.
pub open spec fn rename_values(held: Seq<Value>, table: Seq<Value>) -> Seq<Value> {
    Seq::new(held.len(), |i: int| table[held[i].0 as int])
}

/// Each pair with both its values replaced.
pub open spec fn rename_pairs(held: Seq<(Value, Value)>, table: Seq<Value>) -> Seq<(Value, Value)> {
    Seq::new(held.len(), |i: int| (table[held[i].0.0 as int], table[held[i].1.0 as int]))
}

/// The value replaced, where there is one.
pub open spec fn rename_maybe(held: Option<Value>, table: Seq<Value>) -> Option<Value> {
    match held {
        Some(value) => Some(table[value.0 as int]),
        None => None,
    }
}

/// The values two by two.
pub open spec fn paired(held: Seq<Value>) -> Seq<(Value, Value)> {
    Seq::new(held.len() / 2, |i: int| (held[2 * i], held[2 * i + 1]))
}

fn pair_up(held: &Vec<Value>) -> (pairs: Vec<(Value, Value)>)
    ensures
        pairs@ == paired(held@),
{
    let mut pairs: Vec<(Value, Value)> = Vec::new();
    let mut i: usize = 0;
    while i < held.len() / 2
        invariant
            i <= held.len() / 2,
            pairs@ == paired(held@).take(i as int),
        decreases held.len() / 2 - i,
    {
        pairs.push((held[2 * i], held[2 * i + 1]));
        assert(pairs@ =~= paired(held@).take(i + 1));
        i += 1;
    }
    assert(pairs@ =~= paired(held@));
    pairs
}

/// A copy of the values from `first` on.
pub fn values_from(held: &Vec<Value>, first: usize) -> (rest: Vec<Value>)
    requires
        first <= held@.len(),
    ensures
        rest@ == held@.skip(first as int),
{
    let mut rest: Vec<Value> = Vec::new();
    let mut i: usize = first;
    while i < held.len()
        invariant
            first <= i <= held.len(),
            rest@ == held@.subrange(first as int, i as int),
        decreases held.len() - i,
    {
        rest.push(held[i]);
        assert(rest@ =~= held@.subrange(first as int, i + 1));
        i += 1;
    }
    assert(rest@ =~= held@.skip(first as int));
    rest
}

/// A copy of the values.
pub fn clone_values(held: &Vec<Value>) -> (copy: Vec<Value>)
    ensures
        copy@ == held@,
{
    let mut copied: Vec<Value> = Vec::new();
    let mut i: usize = 0;
    while i < held.len()
        invariant
            i <= held.len(),
            copied@ == held@.take(i as int),
        decreases held.len() - i,
    {
        copied.push(held[i]);
        assert(copied@ =~= held@.take(i + 1));
        i += 1;
    }
    assert(held@.take(held@.len() as int) =~= held@);
    copied
}

fn clone_pairs(held: &Vec<(Value, Value)>) -> (copy: Vec<(Value, Value)>)
    ensures
        copy@ == held@,
{
    let mut copied: Vec<(Value, Value)> = Vec::new();
    let mut i: usize = 0;
    while i < held.len()
        invariant
            i <= held.len(),
            copied@ == held@.take(i as int),
        decreases held.len() - i,
    {
        copied.push((held[i].0, held[i].1));
        assert(copied@ =~= held@.take(i + 1));
        i += 1;
    }
    assert(held@.take(held@.len() as int) =~= held@);
    copied
}

/// Adds the values to the end of `found`.
pub fn push_values(found: &mut Vec<Value>, held: &Vec<Value>)
    ensures
        final(found)@ == old(found)@ + held@,
{
    let mut i: usize = 0;
    while i < held.len()
        invariant
            i <= held.len(),
            found@ == old(found)@ + held@.take(i as int),
        decreases held.len() - i,
    {
        found.push(held[i]);
        assert(found@ =~= old(found)@ + held@.take(i + 1));
        i += 1;
    }
    assert(held@.take(held@.len() as int) =~= held@);
}

fn push_pairs(found: &mut Vec<Value>, held: &Vec<(Value, Value)>)
    ensures
        final(found)@ == old(found)@ + flat_pairs(held@),
{
    let mut i: usize = 0;
    while i < held.len()
        invariant
            i <= held.len(),
            found@ =~= old(found)@ + flat_pairs(held@).take(2 * i),
        decreases held.len() - i,
    {
        found.push(held[i].0);
        found.push(held[i].1);
        assert(found@ =~= old(found)@ + flat_pairs(held@).take(2 * (i + 1)));
        i += 1;
    }
    assert(flat_pairs(held@).take(2 * held@.len() as int) =~= flat_pairs(held@));
}

fn push_maybe(found: &mut Vec<Value>, held: &Option<Value>)
    ensures
        final(found)@ == old(found)@ + maybe_value(*held),
{
    if let Some(value) = held {
        found.push(*value);
    }
    assert(found@ =~= old(found)@ + maybe_value(*held));
}

/// Each value replaced by what the table gives for it.
pub fn renamed_values(held: &Vec<Value>, table: &Vec<Value>) -> (renamed: Vec<Value>)
    requires
        values_within(held@, table@.len()),
    ensures
        renamed@ == rename_values(held@, table@),
{
    let mut renamed: Vec<Value> = Vec::new();
    let mut i: usize = 0;
    while i < held.len()
        invariant
            i <= held.len(),
            values_within(held@, table@.len()),
            renamed@ == rename_values(held@, table@).take(i as int),
        decreases held.len() - i,
    {
        renamed.push(table[held[i].0 as usize]);
        assert(renamed@ =~= rename_values(held@, table@).take(i + 1));
        i += 1;
    }
    assert(renamed@ =~= rename_values(held@, table@));
    renamed
}

fn renamed_pairs(held: &Vec<(Value, Value)>, table: &Vec<Value>) -> (renamed: Vec<(Value, Value)>)
    requires
        pairs_within(held@, table@.len()),
    ensures
        renamed@ == rename_pairs(held@, table@),
{
    let mut renamed: Vec<(Value, Value)> = Vec::new();
    let mut i: usize = 0;
    while i < held.len()
        invariant
            i <= held.len(),
            pairs_within(held@, table@.len()),
            renamed@ == rename_pairs(held@, table@).take(i as int),
        decreases held.len() - i,
    {
        renamed.push((table[held[i].0.0 as usize], table[held[i].1.0 as usize]));
        assert(renamed@ =~= rename_pairs(held@, table@).take(i + 1));
        i += 1;
    }
    assert(renamed@ =~= rename_pairs(held@, table@));
    renamed
}

fn renamed_maybe(held: &Option<Value>, table: &Vec<Value>) -> (renamed: Option<Value>)
    requires
        maybe_within(*held, table@.len()),
    ensures
        renamed == rename_maybe(*held, table@),
{
    match held {
        Some(value) => Some(table[value.0 as usize]),
        None => None,
    }
}

/// What one instruction does.
#[derive(Debug, PartialEq)]
#[allow(inconsistent_fields)]
pub enum InstKind {
    /// A literal.
    Const(Const),
    /// A unary operator.
    Unary { op: UnaryOp, operand: Value },
    /// A binary operator.
    Binary { op: BinaryOp, left: Value, right: Value },
    /// The hash of a value.
    HashValue { value: Value },
    /// A hash state with one more value folded in.
    HashCombine { state: Value, value: Value },
    /// A value as text.
    DisplayValue { value: Value },
    /// Writing a line out.
    Print { value: Value },
    /// An error, from its message.
    MakeError { message: Value },
    /// Stopping the program unless a condition holds.
    Assert { condition: Value, message: Option<Value> },
    /// Stopping the program with a message.
    Panic { message: Value },
    /// `x as T`, between numeric types.
    Convert { value: Value, to: Ty },
    /// The same bits, read as another type.
    Reinterpret { value: Value, to: Ty },
    /// `x is T`.
    IsType { value: Value, ty: Ty },
    /// A call to a function named at compile time.
    Call { callee: FuncId, type_args: Vec<Ty>, args: Vec<Value> },
    /// A call through a function value or a closure.
    CallIndirect { callee: Value, args: Vec<Value> },
    /// A call through an interface value, dispatched at runtime until
    /// devirtualization proves one implementation.
    CallVirtual { method: MethodId, receiver: Value, args: Vec<Value> },
    /// A value that carries what it is at runtime: one used through an
    /// interface, carrying which implementation to dispatch to, or an `any`, an
    /// `unknown`, or a thrown value, which name no interface.
    MakeDyn { interface: Option<TypeId>, value: Value },
    /// The value inside one, where a check or a pass has proved what it holds.
    DynValue { value: Value },
    /// A closure, over the values it captured.
    MakeClosure { func: FuncId, captures: Vec<Value> },
    /// A value of its own, holding what another holds.
    CopyValue { value: Value, allocation: Allocation },
    /// An immutable view of a collection.
    Freeze { value: Value },
    /// A struct or record value, its fields in declaration order.
    MakeStruct { ty: Ty, fields: Vec<Value>, allocation: Allocation },
    /// One field, by its index in that order.
    GetField { object: Value, field: u32 },
    /// Writing one field of a mutable struct.
    SetField { object: Value, field: u32, value: Value },
    /// An enum value: which variant, and what that variant carries.
    MakeEnum { ty: Ty, variant: u32, payload: Vec<Value> },
    /// Which variant a value holds, as the integer a `Switch` reads.
    GetTag { value: Value },
    /// One field of a payload, where the tag has already proved the variant.
    GetPayload { value: Value, variant: u32, field: u32 },
    MakeTuple(Vec<Value>),
    /// One member of a tuple, by position.
    GetElement { tuple: Value, index: u32 },
    /// `[a, b]`.
    MakeList { element: Ty, values: Vec<Value> },
    /// `Map { ... }`.
    MakeMap { key: Ty, value: Ty, entries: Vec<(Value, Value)> },
    /// `Set { ... }`.
    MakeSet { element: Ty, values: Vec<Value> },
    /// Adding to the end of a list.
    ListPush { receiver: Value, value: Value },
    /// Taking the last element of a list.
    ListPop { receiver: Value },
    /// Putting an element before the one at an index.
    ListInsert { receiver: Value, index: Value, value: Value },
    /// Taking the element at an index out of a list.
    ListRemoveAt { receiver: Value, index: Value },
    /// Adding to a set.
    SetInsert { receiver: Value, value: Value },
    /// Emptying a collection.
    Clear { receiver: Value },
    /// Taking an entry out of a map.
    MapRemove { receiver: Value, key: Value },
    /// Taking an element out of a set.
    SetRemove { receiver: Value, value: Value },
    /// Whether a collection holds a value.
    Contains { receiver: Value, value: Value },
    /// Part of a sequence, where the range must lie inside it.
    MakeSlice { receiver: Value, range: Value, inclusive: bool },
    /// Part of a sequence, absent where the range leaves it.
    MakeCheckedSlice { receiver: Value, range: Value, inclusive: bool },
    /// Holding a value until here.
    KeepAlive { value: Value },
    /// Giving up a slice.
    ReleaseSlice { value: Value },
    /// Arithmetic that says what it does outside the range of its type.
    Overflowing { mode: Overflow, op: BinaryOp, left: Value, right: Value },
    /// How many a collection holds.
    Length { receiver: Value },
    /// How many places a hashed collection has.
    Buckets { receiver: Value },
    /// Whether one of those places holds an entry.
    Occupied { receiver: Value, index: Value },
    /// The key of the entry in one.
    EntryKey { receiver: Value, index: Value },
    /// The value of the entry in one.
    EntryValue { receiver: Value, index: Value },
    /// `x[i]`. The index is checked against what the container holds unless a
    /// pass proves it in range.
    GetIndex { receiver: Value, index: Value },
    /// `x[i]`, where a pass has proved the index in range.
    GetUncheckedIndex { receiver: Value, index: Value },
    /// The element at an index, absent where there is none.
    GetCheckedIndex { receiver: Value, index: Value },
    /// `x[i] = v`, checked as `x[i]` is.
    SetIndex { receiver: Value, index: Value, value: Value },
    /// `x[i] = v`, where a pass has proved the index in range.
    SetUncheckedIndex { receiver: Value, index: Value, value: Value },
    /// A present optional, from the value inside it.
    MakeSome { value: Value },
    /// Whether an optional holds a value, which is what `~= nil` asks.
    IsSome { value: Value },
    /// The value inside, where a check has already proved it is there.
    Unwrap { value: Value },
    /// The address of a stack slot, which `&x` and `&mut x` take.
    AddressOf { mutable: bool, slot: SlotId },
    /// The address of a field.
    FieldAddress { mutable: bool, object: Value, field: u32 },
    /// A pointer moved by a count of elements.
    Offset { pointer: Value, count: Value },
    /// Reading through a pointer, which needs `unsafe`.
    Load { pointer: Value },
    /// Writing through a pointer, which needs `unsafe`.
    Store { pointer: Value, value: Value },
    /// Reading a stack slot, which a binding whose address is taken lives in
    /// rather than in a value.
    SlotGet { slot: SlotId },
    /// Writing a stack slot.
    SlotSet { slot: SlotId, value: Value },
    /// Waiting for a task, and what it completed with.
    Await { task: Value },
    /// A place a cancelled task stops at.
    CancellationPoint,
    /// Asking a task to stop.
    Cancel { task: Value, error: Value },
}

/// An [`InstKind`] with its sequences and names as mathematical values.
#[allow(inconsistent_fields)]
pub enum InstKindView {
    Const(ConstView),
    Unary { op: UnaryOp, operand: Value },
    Binary { op: BinaryOp, left: Value, right: Value },
    HashValue { value: Value },
    HashCombine { state: Value, value: Value },
    DisplayValue { value: Value },
    Print { value: Value },
    MakeError { message: Value },
    Assert { condition: Value, message: Option<Value> },
    Panic { message: Value },
    Convert { value: Value, to: TyView },
    Reinterpret { value: Value, to: TyView },
    IsType { value: Value, ty: TyView },
    Call { callee: FuncId, type_args: Seq<TyView>, args: Seq<Value> },
    CallIndirect { callee: Value, args: Seq<Value> },
    CallVirtual { method: MethodId, receiver: Value, args: Seq<Value> },
    MakeDyn { interface: Option<TypeId>, value: Value },
    DynValue { value: Value },
    MakeClosure { func: FuncId, captures: Seq<Value> },
    CopyValue { value: Value, allocation: Allocation },
    Freeze { value: Value },
    MakeStruct { ty: TyView, fields: Seq<Value>, allocation: Allocation },
    GetField { object: Value, field: u32 },
    SetField { object: Value, field: u32, value: Value },
    MakeEnum { ty: TyView, variant: u32, payload: Seq<Value> },
    GetTag { value: Value },
    GetPayload { value: Value, variant: u32, field: u32 },
    MakeTuple(Seq<Value>),
    GetElement { tuple: Value, index: u32 },
    MakeList { element: TyView, values: Seq<Value> },
    MakeMap { key: TyView, value: TyView, entries: Seq<(Value, Value)> },
    MakeSet { element: TyView, values: Seq<Value> },
    ListPush { receiver: Value, value: Value },
    ListPop { receiver: Value },
    ListInsert { receiver: Value, index: Value, value: Value },
    ListRemoveAt { receiver: Value, index: Value },
    SetInsert { receiver: Value, value: Value },
    Clear { receiver: Value },
    MapRemove { receiver: Value, key: Value },
    SetRemove { receiver: Value, value: Value },
    Contains { receiver: Value, value: Value },
    MakeSlice { receiver: Value, range: Value, inclusive: bool },
    MakeCheckedSlice { receiver: Value, range: Value, inclusive: bool },
    KeepAlive { value: Value },
    ReleaseSlice { value: Value },
    Overflowing { mode: Overflow, op: BinaryOp, left: Value, right: Value },
    Length { receiver: Value },
    Buckets { receiver: Value },
    Occupied { receiver: Value, index: Value },
    EntryKey { receiver: Value, index: Value },
    EntryValue { receiver: Value, index: Value },
    GetIndex { receiver: Value, index: Value },
    GetUncheckedIndex { receiver: Value, index: Value },
    GetCheckedIndex { receiver: Value, index: Value },
    SetIndex { receiver: Value, index: Value, value: Value },
    SetUncheckedIndex { receiver: Value, index: Value, value: Value },
    MakeSome { value: Value },
    IsSome { value: Value },
    Unwrap { value: Value },
    AddressOf { mutable: bool, slot: SlotId },
    FieldAddress { mutable: bool, object: Value, field: u32 },
    Offset { pointer: Value, count: Value },
    Load { pointer: Value },
    Store { pointer: Value, value: Value },
    SlotGet { slot: SlotId },
    SlotSet { slot: SlotId, value: Value },
    Await { task: Value },
    CancellationPoint,
    Cancel { task: Value, error: Value },
}

impl View for InstKind {
    type V = InstKindView;

    open spec fn view(&self) -> InstKindView {
        match *self {
            InstKind::Const(held) => InstKindView::Const(held@),
            InstKind::Unary { op, operand } => InstKindView::Unary { op, operand },
            InstKind::Binary { op, left, right } => InstKindView::Binary { op, left, right },
            InstKind::HashValue { value } => InstKindView::HashValue { value },
            InstKind::HashCombine { state, value } => InstKindView::HashCombine { state, value },
            InstKind::DisplayValue { value } => InstKindView::DisplayValue { value },
            InstKind::Print { value } => InstKindView::Print { value },
            InstKind::MakeError { message } => InstKindView::MakeError { message },
            InstKind::Assert { condition, message } => InstKindView::Assert { condition, message },
            InstKind::Panic { message } => InstKindView::Panic { message },
            InstKind::Convert { value, to } => InstKindView::Convert { value, to: to@ },
            InstKind::Reinterpret { value, to } => InstKindView::Reinterpret { value, to: to@ },
            InstKind::IsType { value, ty } => InstKindView::IsType { value, ty: ty@ },
            InstKind::Call { callee, type_args, args } => InstKindView::Call { callee, type_args: tys(type_args@), args: args@ },
            InstKind::CallIndirect { callee, args } => InstKindView::CallIndirect { callee, args: args@ },
            InstKind::CallVirtual { method, receiver, args } => InstKindView::CallVirtual { method, receiver, args: args@ },
            InstKind::MakeDyn { interface, value } => InstKindView::MakeDyn { interface, value },
            InstKind::DynValue { value } => InstKindView::DynValue { value },
            InstKind::MakeClosure { func, captures } => InstKindView::MakeClosure { func, captures: captures@ },
            InstKind::CopyValue { value, allocation } => InstKindView::CopyValue { value, allocation },
            InstKind::Freeze { value } => InstKindView::Freeze { value },
            InstKind::MakeStruct { ty, fields, allocation } => InstKindView::MakeStruct { ty: ty@, fields: fields@, allocation },
            InstKind::GetField { object, field } => InstKindView::GetField { object, field },
            InstKind::SetField { object, field, value } => InstKindView::SetField { object, field, value },
            InstKind::MakeEnum { ty, variant, payload } => InstKindView::MakeEnum { ty: ty@, variant, payload: payload@ },
            InstKind::GetTag { value } => InstKindView::GetTag { value },
            InstKind::GetPayload { value, variant, field } => InstKindView::GetPayload { value, variant, field },
            InstKind::MakeTuple(held) => InstKindView::MakeTuple(held@),
            InstKind::GetElement { tuple, index } => InstKindView::GetElement { tuple, index },
            InstKind::MakeList { element, values } => InstKindView::MakeList { element: element@, values: values@ },
            InstKind::MakeMap { key, value, entries } => InstKindView::MakeMap { key: key@, value: value@, entries: entries@ },
            InstKind::MakeSet { element, values } => InstKindView::MakeSet { element: element@, values: values@ },
            InstKind::ListPush { receiver, value } => InstKindView::ListPush { receiver, value },
            InstKind::ListPop { receiver } => InstKindView::ListPop { receiver },
            InstKind::ListInsert { receiver, index, value } => InstKindView::ListInsert { receiver, index, value },
            InstKind::ListRemoveAt { receiver, index } => InstKindView::ListRemoveAt { receiver, index },
            InstKind::SetInsert { receiver, value } => InstKindView::SetInsert { receiver, value },
            InstKind::Clear { receiver } => InstKindView::Clear { receiver },
            InstKind::MapRemove { receiver, key } => InstKindView::MapRemove { receiver, key },
            InstKind::SetRemove { receiver, value } => InstKindView::SetRemove { receiver, value },
            InstKind::Contains { receiver, value } => InstKindView::Contains { receiver, value },
            InstKind::MakeSlice { receiver, range, inclusive } => InstKindView::MakeSlice { receiver, range, inclusive },
            InstKind::MakeCheckedSlice { receiver, range, inclusive } => InstKindView::MakeCheckedSlice { receiver, range, inclusive },
            InstKind::KeepAlive { value } => InstKindView::KeepAlive { value },
            InstKind::ReleaseSlice { value } => InstKindView::ReleaseSlice { value },
            InstKind::Overflowing { mode, op, left, right } => InstKindView::Overflowing { mode, op, left, right },
            InstKind::Length { receiver } => InstKindView::Length { receiver },
            InstKind::Buckets { receiver } => InstKindView::Buckets { receiver },
            InstKind::Occupied { receiver, index } => InstKindView::Occupied { receiver, index },
            InstKind::EntryKey { receiver, index } => InstKindView::EntryKey { receiver, index },
            InstKind::EntryValue { receiver, index } => InstKindView::EntryValue { receiver, index },
            InstKind::GetIndex { receiver, index } => InstKindView::GetIndex { receiver, index },
            InstKind::GetUncheckedIndex { receiver, index } => InstKindView::GetUncheckedIndex { receiver, index },
            InstKind::GetCheckedIndex { receiver, index } => InstKindView::GetCheckedIndex { receiver, index },
            InstKind::SetIndex { receiver, index, value } => InstKindView::SetIndex { receiver, index, value },
            InstKind::SetUncheckedIndex { receiver, index, value } => InstKindView::SetUncheckedIndex { receiver, index, value },
            InstKind::MakeSome { value } => InstKindView::MakeSome { value },
            InstKind::IsSome { value } => InstKindView::IsSome { value },
            InstKind::Unwrap { value } => InstKindView::Unwrap { value },
            InstKind::AddressOf { mutable, slot } => InstKindView::AddressOf { mutable, slot },
            InstKind::FieldAddress { mutable, object, field } => InstKindView::FieldAddress { mutable, object, field },
            InstKind::Offset { pointer, count } => InstKindView::Offset { pointer, count },
            InstKind::Load { pointer } => InstKindView::Load { pointer },
            InstKind::Store { pointer, value } => InstKindView::Store { pointer, value },
            InstKind::SlotGet { slot } => InstKindView::SlotGet { slot },
            InstKind::SlotSet { slot, value } => InstKindView::SlotSet { slot, value },
            InstKind::Await { task } => InstKindView::Await { task },
            InstKind::CancellationPoint => InstKindView::CancellationPoint,
            InstKind::Cancel { task, error } => InstKindView::Cancel { task, error },
        }
    }
}

impl Clone for InstKind {
    fn clone(&self) -> (copy: InstKind)
        ensures
            copy@ == self@,
    {
        match self {
            InstKind::Const(held) => InstKind::Const(held.clone()),
            InstKind::Unary { op, operand } => InstKind::Unary { op: *op, operand: *operand },
            InstKind::Binary { op, left, right } => InstKind::Binary { op: *op, left: *left, right: *right },
            InstKind::HashValue { value } => InstKind::HashValue { value: *value },
            InstKind::HashCombine { state, value } => InstKind::HashCombine { state: *state, value: *value },
            InstKind::DisplayValue { value } => InstKind::DisplayValue { value: *value },
            InstKind::Print { value } => InstKind::Print { value: *value },
            InstKind::MakeError { message } => InstKind::MakeError { message: *message },
            InstKind::Assert { condition, message } => InstKind::Assert { condition: *condition, message: *message },
            InstKind::Panic { message } => InstKind::Panic { message: *message },
            InstKind::Convert { value, to } => InstKind::Convert { value: *value, to: to.clone() },
            InstKind::Reinterpret { value, to } => InstKind::Reinterpret { value: *value, to: to.clone() },
            InstKind::IsType { value, ty } => InstKind::IsType { value: *value, ty: ty.clone() },
            InstKind::Call { callee, type_args, args } => InstKind::Call { callee: *callee, type_args: clone_tys(type_args), args: clone_values(args) },
            InstKind::CallIndirect { callee, args } => InstKind::CallIndirect { callee: *callee, args: clone_values(args) },
            InstKind::CallVirtual { method, receiver, args } => InstKind::CallVirtual { method: *method, receiver: *receiver, args: clone_values(args) },
            InstKind::MakeDyn { interface, value } => InstKind::MakeDyn { interface: *interface, value: *value },
            InstKind::DynValue { value } => InstKind::DynValue { value: *value },
            InstKind::MakeClosure { func, captures } => InstKind::MakeClosure { func: *func, captures: clone_values(captures) },
            InstKind::CopyValue { value, allocation } => InstKind::CopyValue { value: *value, allocation: *allocation },
            InstKind::Freeze { value } => InstKind::Freeze { value: *value },
            InstKind::MakeStruct { ty, fields, allocation } => InstKind::MakeStruct { ty: ty.clone(), fields: clone_values(fields), allocation: *allocation },
            InstKind::GetField { object, field } => InstKind::GetField { object: *object, field: *field },
            InstKind::SetField { object, field, value } => InstKind::SetField { object: *object, field: *field, value: *value },
            InstKind::MakeEnum { ty, variant, payload } => InstKind::MakeEnum { ty: ty.clone(), variant: *variant, payload: clone_values(payload) },
            InstKind::GetTag { value } => InstKind::GetTag { value: *value },
            InstKind::GetPayload { value, variant, field } => InstKind::GetPayload { value: *value, variant: *variant, field: *field },
            InstKind::MakeTuple(held) => InstKind::MakeTuple(clone_values(held)),
            InstKind::GetElement { tuple, index } => InstKind::GetElement { tuple: *tuple, index: *index },
            InstKind::MakeList { element, values } => InstKind::MakeList { element: element.clone(), values: clone_values(values) },
            InstKind::MakeMap { key, value, entries } => InstKind::MakeMap { key: key.clone(), value: value.clone(), entries: clone_pairs(entries) },
            InstKind::MakeSet { element, values } => InstKind::MakeSet { element: element.clone(), values: clone_values(values) },
            InstKind::ListPush { receiver, value } => InstKind::ListPush { receiver: *receiver, value: *value },
            InstKind::ListPop { receiver } => InstKind::ListPop { receiver: *receiver },
            InstKind::ListInsert { receiver, index, value } => InstKind::ListInsert { receiver: *receiver, index: *index, value: *value },
            InstKind::ListRemoveAt { receiver, index } => InstKind::ListRemoveAt { receiver: *receiver, index: *index },
            InstKind::SetInsert { receiver, value } => InstKind::SetInsert { receiver: *receiver, value: *value },
            InstKind::Clear { receiver } => InstKind::Clear { receiver: *receiver },
            InstKind::MapRemove { receiver, key } => InstKind::MapRemove { receiver: *receiver, key: *key },
            InstKind::SetRemove { receiver, value } => InstKind::SetRemove { receiver: *receiver, value: *value },
            InstKind::Contains { receiver, value } => InstKind::Contains { receiver: *receiver, value: *value },
            InstKind::MakeSlice { receiver, range, inclusive } => InstKind::MakeSlice { receiver: *receiver, range: *range, inclusive: *inclusive },
            InstKind::MakeCheckedSlice { receiver, range, inclusive } => InstKind::MakeCheckedSlice { receiver: *receiver, range: *range, inclusive: *inclusive },
            InstKind::KeepAlive { value } => InstKind::KeepAlive { value: *value },
            InstKind::ReleaseSlice { value } => InstKind::ReleaseSlice { value: *value },
            InstKind::Overflowing { mode, op, left, right } => InstKind::Overflowing { mode: *mode, op: *op, left: *left, right: *right },
            InstKind::Length { receiver } => InstKind::Length { receiver: *receiver },
            InstKind::Buckets { receiver } => InstKind::Buckets { receiver: *receiver },
            InstKind::Occupied { receiver, index } => InstKind::Occupied { receiver: *receiver, index: *index },
            InstKind::EntryKey { receiver, index } => InstKind::EntryKey { receiver: *receiver, index: *index },
            InstKind::EntryValue { receiver, index } => InstKind::EntryValue { receiver: *receiver, index: *index },
            InstKind::GetIndex { receiver, index } => InstKind::GetIndex { receiver: *receiver, index: *index },
            InstKind::GetUncheckedIndex { receiver, index } => InstKind::GetUncheckedIndex { receiver: *receiver, index: *index },
            InstKind::GetCheckedIndex { receiver, index } => InstKind::GetCheckedIndex { receiver: *receiver, index: *index },
            InstKind::SetIndex { receiver, index, value } => InstKind::SetIndex { receiver: *receiver, index: *index, value: *value },
            InstKind::SetUncheckedIndex { receiver, index, value } => InstKind::SetUncheckedIndex { receiver: *receiver, index: *index, value: *value },
            InstKind::MakeSome { value } => InstKind::MakeSome { value: *value },
            InstKind::IsSome { value } => InstKind::IsSome { value: *value },
            InstKind::Unwrap { value } => InstKind::Unwrap { value: *value },
            InstKind::AddressOf { mutable, slot } => InstKind::AddressOf { mutable: *mutable, slot: *slot },
            InstKind::FieldAddress { mutable, object, field } => InstKind::FieldAddress { mutable: *mutable, object: *object, field: *field },
            InstKind::Offset { pointer, count } => InstKind::Offset { pointer: *pointer, count: *count },
            InstKind::Load { pointer } => InstKind::Load { pointer: *pointer },
            InstKind::Store { pointer, value } => InstKind::Store { pointer: *pointer, value: *value },
            InstKind::SlotGet { slot } => InstKind::SlotGet { slot: *slot },
            InstKind::SlotSet { slot, value } => InstKind::SlotSet { slot: *slot, value: *value },
            InstKind::Await { task } => InstKind::Await { task: *task },
            InstKind::CancellationPoint => InstKind::CancellationPoint,
            InstKind::Cancel { task, error } => InstKind::Cancel { task: *task, error: *error },
        }
    }
}

impl InstKindView {
    /// What the instruction does besides producing its result.
    pub open spec fn effect(self) -> Effect {
        match self {
            InstKindView::Const(_)
            | InstKindView::Unary { .. }
            | InstKindView::HashValue { .. }
            | InstKindView::HashCombine { .. }
            | InstKindView::DisplayValue { .. }
            | InstKindView::MakeError { .. }
            | InstKindView::Convert { .. }
            | InstKindView::Reinterpret { .. }
            | InstKindView::IsType { .. }
            | InstKindView::MakeDyn { .. }
            | InstKindView::DynValue { .. }
            | InstKindView::MakeClosure { .. }
            | InstKindView::CopyValue { .. }
            | InstKindView::Freeze { .. }
            | InstKindView::MakeStruct { .. }
            | InstKindView::GetField { .. }
            | InstKindView::MakeEnum { .. }
            | InstKindView::GetTag { .. }
            | InstKindView::GetPayload { .. }
            | InstKindView::MakeTuple(_)
            | InstKindView::GetElement { .. }
            | InstKindView::MakeList { .. }
            | InstKindView::MakeMap { .. }
            | InstKindView::MakeSet { .. }
            | InstKindView::Contains { .. }
            | InstKindView::MakeCheckedSlice { .. }
            | InstKindView::Overflowing { .. }
            | InstKindView::Length { .. }
            | InstKindView::Buckets { .. }
            | InstKindView::Occupied { .. }
            | InstKindView::EntryKey { .. }
            | InstKindView::EntryValue { .. }
            | InstKindView::GetUncheckedIndex { .. }
            | InstKindView::GetCheckedIndex { .. }
            | InstKindView::MakeSome { .. }
            | InstKindView::IsSome { .. }
            | InstKindView::Unwrap { .. }
            | InstKindView::AddressOf { .. }
            | InstKindView::FieldAddress { .. }
            | InstKindView::Offset { .. } => Effect::Pure,
            InstKindView::Binary { op, .. } => if op.traps() {
                Effect::Trap
            } else {
                Effect::Pure
            },
            InstKindView::Assert { .. }
            | InstKindView::MakeSlice { .. }
            | InstKindView::GetIndex { .. } => Effect::Trap,
            InstKindView::Print { .. }
            | InstKindView::Panic { .. }
            | InstKindView::Call { .. }
            | InstKindView::CallIndirect { .. }
            | InstKindView::CallVirtual { .. }
            | InstKindView::SetField { .. }
            | InstKindView::ListPush { .. }
            | InstKindView::ListPop { .. }
            | InstKindView::ListInsert { .. }
            | InstKindView::ListRemoveAt { .. }
            | InstKindView::SetInsert { .. }
            | InstKindView::Clear { .. }
            | InstKindView::MapRemove { .. }
            | InstKindView::SetRemove { .. }
            | InstKindView::KeepAlive { .. }
            | InstKindView::ReleaseSlice { .. }
            | InstKindView::SetIndex { .. }
            | InstKindView::SetUncheckedIndex { .. }
            | InstKindView::Load { .. }
            | InstKindView::Store { .. }
            | InstKindView::SlotGet { .. }
            | InstKindView::SlotSet { .. }
            | InstKindView::Await { .. }
            | InstKindView::CancellationPoint
            | InstKindView::Cancel { .. } => Effect::State,
        }
    }

    /// The values the instruction reads, in the order it names them.
    pub open spec fn operands(self) -> Seq<Value> {
        match self {
            InstKindView::Unary { operand, .. } => seq![operand],
            InstKindView::Binary { left, right, .. } => seq![left, right],
            InstKindView::HashValue { value } => seq![value],
            InstKindView::HashCombine { state, value } => seq![state, value],
            InstKindView::DisplayValue { value } => seq![value],
            InstKindView::Print { value } => seq![value],
            InstKindView::MakeError { message } => seq![message],
            InstKindView::Assert { condition, message } => seq![condition] + maybe_value(message),
            InstKindView::Panic { message } => seq![message],
            InstKindView::Convert { value, .. } => seq![value],
            InstKindView::Reinterpret { value, .. } => seq![value],
            InstKindView::IsType { value, .. } => seq![value],
            InstKindView::Call { args, .. } => args,
            InstKindView::CallIndirect { callee, args } => seq![callee] + args,
            InstKindView::CallVirtual { receiver, args, .. } => seq![receiver] + args,
            InstKindView::MakeDyn { value, .. } => seq![value],
            InstKindView::DynValue { value } => seq![value],
            InstKindView::MakeClosure { captures, .. } => captures,
            InstKindView::CopyValue { value, .. } => seq![value],
            InstKindView::Freeze { value } => seq![value],
            InstKindView::MakeStruct { fields, .. } => fields,
            InstKindView::GetField { object, .. } => seq![object],
            InstKindView::SetField { object, value, .. } => seq![object, value],
            InstKindView::MakeEnum { payload, .. } => payload,
            InstKindView::GetTag { value } => seq![value],
            InstKindView::GetPayload { value, .. } => seq![value],
            InstKindView::MakeTuple(held) => held,
            InstKindView::GetElement { tuple, .. } => seq![tuple],
            InstKindView::MakeList { values, .. } => values,
            InstKindView::MakeMap { entries, .. } => flat_pairs(entries),
            InstKindView::MakeSet { values, .. } => values,
            InstKindView::ListPush { receiver, value } => seq![receiver, value],
            InstKindView::ListPop { receiver } => seq![receiver],
            InstKindView::ListInsert { receiver, index, value } => seq![receiver, index, value],
            InstKindView::ListRemoveAt { receiver, index } => seq![receiver, index],
            InstKindView::SetInsert { receiver, value } => seq![receiver, value],
            InstKindView::Clear { receiver } => seq![receiver],
            InstKindView::MapRemove { receiver, key } => seq![receiver, key],
            InstKindView::SetRemove { receiver, value } => seq![receiver, value],
            InstKindView::Contains { receiver, value } => seq![receiver, value],
            InstKindView::MakeSlice { receiver, range, .. } => seq![receiver, range],
            InstKindView::MakeCheckedSlice { receiver, range, .. } => seq![receiver, range],
            InstKindView::KeepAlive { value } => seq![value],
            InstKindView::ReleaseSlice { value } => seq![value],
            InstKindView::Overflowing { left, right, .. } => seq![left, right],
            InstKindView::Length { receiver } => seq![receiver],
            InstKindView::Buckets { receiver } => seq![receiver],
            InstKindView::Occupied { receiver, index } => seq![receiver, index],
            InstKindView::EntryKey { receiver, index } => seq![receiver, index],
            InstKindView::EntryValue { receiver, index } => seq![receiver, index],
            InstKindView::GetIndex { receiver, index } => seq![receiver, index],
            InstKindView::GetUncheckedIndex { receiver, index } => seq![receiver, index],
            InstKindView::GetCheckedIndex { receiver, index } => seq![receiver, index],
            InstKindView::SetIndex { receiver, index, value } => seq![receiver, index, value],
            InstKindView::SetUncheckedIndex { receiver, index, value } => seq![receiver, index, value],
            InstKindView::MakeSome { value } => seq![value],
            InstKindView::IsSome { value } => seq![value],
            InstKindView::Unwrap { value } => seq![value],
            InstKindView::FieldAddress { object, .. } => seq![object],
            InstKindView::Offset { pointer, count } => seq![pointer, count],
            InstKindView::Load { pointer } => seq![pointer],
            InstKindView::Store { pointer, value } => seq![pointer, value],
            InstKindView::SlotSet { value, .. } => seq![value],
            InstKindView::Await { task } => seq![task],
            InstKindView::Cancel { task, error } => seq![task, error],
            InstKindView::Const(_)
            | InstKindView::AddressOf { .. }
            | InstKindView::SlotGet { .. }
            | InstKindView::CancellationPoint => Seq::empty(),
        }
    }

    /// The stack slot the instruction names, if it names one.
    pub open spec fn slot(self) -> Option<SlotId> {
        match self {
            InstKindView::AddressOf { slot, .. } => Some(slot),
            InstKindView::SlotGet { slot } => Some(slot),
            InstKindView::SlotSet { slot, .. } => Some(slot),
            _ => None,
        }
    }

    /// The function the instruction names, if it names one.
    pub open spec fn func(self) -> Option<FuncId> {
        match self {
            InstKindView::Call { callee, .. } => Some(callee),
            InstKindView::MakeClosure { func, .. } => Some(func),
            _ => None,
        }
    }

    /// Whether every value and slot the instruction names is one of the first
    /// `values` and `slots`.
    pub open spec fn within(self, values: nat, slots: nat) -> bool {
        match self {
            InstKindView::Unary { operand, .. } => operand.0 < values,
            InstKindView::Binary { left, right, .. } => left.0 < values && right.0 < values,
            InstKindView::HashValue { value } => value.0 < values,
            InstKindView::HashCombine { state, value } => state.0 < values && value.0 < values,
            InstKindView::DisplayValue { value } => value.0 < values,
            InstKindView::Print { value } => value.0 < values,
            InstKindView::MakeError { message } => message.0 < values,
            InstKindView::Assert { condition, message } => condition.0 < values && maybe_within(message, values),
            InstKindView::Panic { message } => message.0 < values,
            InstKindView::Convert { value, .. } => value.0 < values,
            InstKindView::Reinterpret { value, .. } => value.0 < values,
            InstKindView::IsType { value, .. } => value.0 < values,
            InstKindView::Call { args, .. } => values_within(args, values),
            InstKindView::CallIndirect { callee, args } => callee.0 < values && values_within(args, values),
            InstKindView::CallVirtual { receiver, args, .. } => receiver.0 < values && values_within(args, values),
            InstKindView::MakeDyn { value, .. } => value.0 < values,
            InstKindView::DynValue { value } => value.0 < values,
            InstKindView::MakeClosure { captures, .. } => values_within(captures, values),
            InstKindView::CopyValue { value, .. } => value.0 < values,
            InstKindView::Freeze { value } => value.0 < values,
            InstKindView::MakeStruct { fields, .. } => values_within(fields, values),
            InstKindView::GetField { object, .. } => object.0 < values,
            InstKindView::SetField { object, value, .. } => object.0 < values && value.0 < values,
            InstKindView::MakeEnum { payload, .. } => values_within(payload, values),
            InstKindView::GetTag { value } => value.0 < values,
            InstKindView::GetPayload { value, .. } => value.0 < values,
            InstKindView::MakeTuple(held) => values_within(held, values),
            InstKindView::GetElement { tuple, .. } => tuple.0 < values,
            InstKindView::MakeList { values: held, .. } => values_within(held, values),
            InstKindView::MakeMap { entries, .. } => pairs_within(entries, values),
            InstKindView::MakeSet { values: held, .. } => values_within(held, values),
            InstKindView::ListPush { receiver, value } => receiver.0 < values && value.0 < values,
            InstKindView::ListPop { receiver } => receiver.0 < values,
            InstKindView::ListInsert { receiver, index, value } => receiver.0 < values && index.0 < values && value.0 < values,
            InstKindView::ListRemoveAt { receiver, index } => receiver.0 < values && index.0 < values,
            InstKindView::SetInsert { receiver, value } => receiver.0 < values && value.0 < values,
            InstKindView::Clear { receiver } => receiver.0 < values,
            InstKindView::MapRemove { receiver, key } => receiver.0 < values && key.0 < values,
            InstKindView::SetRemove { receiver, value } => receiver.0 < values && value.0 < values,
            InstKindView::Contains { receiver, value } => receiver.0 < values && value.0 < values,
            InstKindView::MakeSlice { receiver, range, .. } => receiver.0 < values && range.0 < values,
            InstKindView::MakeCheckedSlice { receiver, range, .. } => receiver.0 < values && range.0 < values,
            InstKindView::KeepAlive { value } => value.0 < values,
            InstKindView::ReleaseSlice { value } => value.0 < values,
            InstKindView::Overflowing { left, right, .. } => left.0 < values && right.0 < values,
            InstKindView::Length { receiver } => receiver.0 < values,
            InstKindView::Buckets { receiver } => receiver.0 < values,
            InstKindView::Occupied { receiver, index } => receiver.0 < values && index.0 < values,
            InstKindView::EntryKey { receiver, index } => receiver.0 < values && index.0 < values,
            InstKindView::EntryValue { receiver, index } => receiver.0 < values && index.0 < values,
            InstKindView::GetIndex { receiver, index } => receiver.0 < values && index.0 < values,
            InstKindView::GetUncheckedIndex { receiver, index } => receiver.0 < values && index.0 < values,
            InstKindView::GetCheckedIndex { receiver, index } => receiver.0 < values && index.0 < values,
            InstKindView::SetIndex { receiver, index, value } => receiver.0 < values && index.0 < values && value.0 < values,
            InstKindView::SetUncheckedIndex { receiver, index, value } => receiver.0 < values && index.0 < values && value.0 < values,
            InstKindView::MakeSome { value } => value.0 < values,
            InstKindView::IsSome { value } => value.0 < values,
            InstKindView::Unwrap { value } => value.0 < values,
            InstKindView::AddressOf { slot, .. } => slot.0 < slots,
            InstKindView::FieldAddress { object, .. } => object.0 < values,
            InstKindView::Offset { pointer, count } => pointer.0 < values && count.0 < values,
            InstKindView::Load { pointer } => pointer.0 < values,
            InstKindView::Store { pointer, value } => pointer.0 < values && value.0 < values,
            InstKindView::SlotGet { slot } => slot.0 < slots,
            InstKindView::SlotSet { slot, value } => slot.0 < slots && value.0 < values,
            InstKindView::Await { task } => task.0 < values,
            InstKindView::Cancel { task, error } => task.0 < values && error.0 < values,
            InstKindView::Const(_) | InstKindView::CancellationPoint => true,
        }
    }

    /// The instruction with each value and slot replaced by what the tables
    /// give for it.
    pub open spec fn renamed(self, values: Seq<Value>, slots: Seq<SlotId>) -> InstKindView {
        match self {
            InstKindView::Const(held) => InstKindView::Const(held),
            InstKindView::Unary { op, operand } => InstKindView::Unary { op, operand: values[operand.0 as int] },
            InstKindView::Binary { op, left, right } => InstKindView::Binary { op, left: values[left.0 as int], right: values[right.0 as int] },
            InstKindView::HashValue { value } => InstKindView::HashValue { value: values[value.0 as int] },
            InstKindView::HashCombine { state, value } => InstKindView::HashCombine { state: values[state.0 as int], value: values[value.0 as int] },
            InstKindView::DisplayValue { value } => InstKindView::DisplayValue { value: values[value.0 as int] },
            InstKindView::Print { value } => InstKindView::Print { value: values[value.0 as int] },
            InstKindView::MakeError { message } => InstKindView::MakeError { message: values[message.0 as int] },
            InstKindView::Assert { condition, message } => InstKindView::Assert { condition: values[condition.0 as int], message: rename_maybe(message, values) },
            InstKindView::Panic { message } => InstKindView::Panic { message: values[message.0 as int] },
            InstKindView::Convert { value, to } => InstKindView::Convert { value: values[value.0 as int], to },
            InstKindView::Reinterpret { value, to } => InstKindView::Reinterpret { value: values[value.0 as int], to },
            InstKindView::IsType { value, ty } => InstKindView::IsType { value: values[value.0 as int], ty },
            InstKindView::Call { callee, type_args, args } => InstKindView::Call { callee, type_args, args: rename_values(args, values) },
            InstKindView::CallIndirect { callee, args } => InstKindView::CallIndirect { callee: values[callee.0 as int], args: rename_values(args, values) },
            InstKindView::CallVirtual { method, receiver, args } => InstKindView::CallVirtual { method, receiver: values[receiver.0 as int], args: rename_values(args, values) },
            InstKindView::MakeDyn { interface, value } => InstKindView::MakeDyn { interface, value: values[value.0 as int] },
            InstKindView::DynValue { value } => InstKindView::DynValue { value: values[value.0 as int] },
            InstKindView::MakeClosure { func, captures } => InstKindView::MakeClosure { func, captures: rename_values(captures, values) },
            InstKindView::CopyValue { value, allocation } => InstKindView::CopyValue { value: values[value.0 as int], allocation },
            InstKindView::Freeze { value } => InstKindView::Freeze { value: values[value.0 as int] },
            InstKindView::MakeStruct { ty, fields, allocation } => InstKindView::MakeStruct { ty, fields: rename_values(fields, values), allocation },
            InstKindView::GetField { object, field } => InstKindView::GetField { object: values[object.0 as int], field },
            InstKindView::SetField { object, field, value } => InstKindView::SetField { object: values[object.0 as int], field, value: values[value.0 as int] },
            InstKindView::MakeEnum { ty, variant, payload } => InstKindView::MakeEnum { ty, variant, payload: rename_values(payload, values) },
            InstKindView::GetTag { value } => InstKindView::GetTag { value: values[value.0 as int] },
            InstKindView::GetPayload { value, variant, field } => InstKindView::GetPayload { value: values[value.0 as int], variant, field },
            InstKindView::MakeTuple(held) => InstKindView::MakeTuple(rename_values(held, values)),
            InstKindView::GetElement { tuple, index } => InstKindView::GetElement { tuple: values[tuple.0 as int], index },
            InstKindView::MakeList { element, values: held } => InstKindView::MakeList { element, values: rename_values(held, values) },
            InstKindView::MakeMap { key, value, entries } => InstKindView::MakeMap { key, value, entries: rename_pairs(entries, values) },
            InstKindView::MakeSet { element, values: held } => InstKindView::MakeSet { element, values: rename_values(held, values) },
            InstKindView::ListPush { receiver, value } => InstKindView::ListPush { receiver: values[receiver.0 as int], value: values[value.0 as int] },
            InstKindView::ListPop { receiver } => InstKindView::ListPop { receiver: values[receiver.0 as int] },
            InstKindView::ListInsert { receiver, index, value } => InstKindView::ListInsert { receiver: values[receiver.0 as int], index: values[index.0 as int], value: values[value.0 as int] },
            InstKindView::ListRemoveAt { receiver, index } => InstKindView::ListRemoveAt { receiver: values[receiver.0 as int], index: values[index.0 as int] },
            InstKindView::SetInsert { receiver, value } => InstKindView::SetInsert { receiver: values[receiver.0 as int], value: values[value.0 as int] },
            InstKindView::Clear { receiver } => InstKindView::Clear { receiver: values[receiver.0 as int] },
            InstKindView::MapRemove { receiver, key } => InstKindView::MapRemove { receiver: values[receiver.0 as int], key: values[key.0 as int] },
            InstKindView::SetRemove { receiver, value } => InstKindView::SetRemove { receiver: values[receiver.0 as int], value: values[value.0 as int] },
            InstKindView::Contains { receiver, value } => InstKindView::Contains { receiver: values[receiver.0 as int], value: values[value.0 as int] },
            InstKindView::MakeSlice { receiver, range, inclusive } => InstKindView::MakeSlice { receiver: values[receiver.0 as int], range: values[range.0 as int], inclusive },
            InstKindView::MakeCheckedSlice { receiver, range, inclusive } => InstKindView::MakeCheckedSlice { receiver: values[receiver.0 as int], range: values[range.0 as int], inclusive },
            InstKindView::KeepAlive { value } => InstKindView::KeepAlive { value: values[value.0 as int] },
            InstKindView::ReleaseSlice { value } => InstKindView::ReleaseSlice { value: values[value.0 as int] },
            InstKindView::Overflowing { mode, op, left, right } => InstKindView::Overflowing { mode, op, left: values[left.0 as int], right: values[right.0 as int] },
            InstKindView::Length { receiver } => InstKindView::Length { receiver: values[receiver.0 as int] },
            InstKindView::Buckets { receiver } => InstKindView::Buckets { receiver: values[receiver.0 as int] },
            InstKindView::Occupied { receiver, index } => InstKindView::Occupied { receiver: values[receiver.0 as int], index: values[index.0 as int] },
            InstKindView::EntryKey { receiver, index } => InstKindView::EntryKey { receiver: values[receiver.0 as int], index: values[index.0 as int] },
            InstKindView::EntryValue { receiver, index } => InstKindView::EntryValue { receiver: values[receiver.0 as int], index: values[index.0 as int] },
            InstKindView::GetIndex { receiver, index } => InstKindView::GetIndex { receiver: values[receiver.0 as int], index: values[index.0 as int] },
            InstKindView::GetUncheckedIndex { receiver, index } => InstKindView::GetUncheckedIndex { receiver: values[receiver.0 as int], index: values[index.0 as int] },
            InstKindView::GetCheckedIndex { receiver, index } => InstKindView::GetCheckedIndex { receiver: values[receiver.0 as int], index: values[index.0 as int] },
            InstKindView::SetIndex { receiver, index, value } => InstKindView::SetIndex { receiver: values[receiver.0 as int], index: values[index.0 as int], value: values[value.0 as int] },
            InstKindView::SetUncheckedIndex { receiver, index, value } => InstKindView::SetUncheckedIndex { receiver: values[receiver.0 as int], index: values[index.0 as int], value: values[value.0 as int] },
            InstKindView::MakeSome { value } => InstKindView::MakeSome { value: values[value.0 as int] },
            InstKindView::IsSome { value } => InstKindView::IsSome { value: values[value.0 as int] },
            InstKindView::Unwrap { value } => InstKindView::Unwrap { value: values[value.0 as int] },
            InstKindView::AddressOf { mutable, slot } => InstKindView::AddressOf { mutable, slot: slots[slot.0 as int] },
            InstKindView::FieldAddress { mutable, object, field } => InstKindView::FieldAddress { mutable, object: values[object.0 as int], field },
            InstKindView::Offset { pointer, count } => InstKindView::Offset { pointer: values[pointer.0 as int], count: values[count.0 as int] },
            InstKindView::Load { pointer } => InstKindView::Load { pointer: values[pointer.0 as int] },
            InstKindView::Store { pointer, value } => InstKindView::Store { pointer: values[pointer.0 as int], value: values[value.0 as int] },
            InstKindView::SlotGet { slot } => InstKindView::SlotGet { slot: slots[slot.0 as int] },
            InstKindView::SlotSet { slot, value } => InstKindView::SlotSet { slot: slots[slot.0 as int], value: values[value.0 as int] },
            InstKindView::Await { task } => InstKindView::Await { task: values[task.0 as int] },
            InstKindView::CancellationPoint => InstKindView::CancellationPoint,
            InstKindView::Cancel { task, error } => InstKindView::Cancel { task: values[task.0 as int], error: values[error.0 as int] },
        }
    }

    /// The instruction reading `new` in the place of what it reads, in order.
    pub open spec fn with_operands(self, new: Seq<Value>) -> InstKindView {
        match self {
            InstKindView::Unary { op, .. } => InstKindView::Unary { op, operand: new[0] },
            InstKindView::Binary { op, .. } => InstKindView::Binary { op, left: new[0], right: new[1] },
            InstKindView::HashValue { .. } => InstKindView::HashValue { value: new[0] },
            InstKindView::HashCombine { .. } => InstKindView::HashCombine { state: new[0], value: new[1] },
            InstKindView::DisplayValue { .. } => InstKindView::DisplayValue { value: new[0] },
            InstKindView::Print { .. } => InstKindView::Print { value: new[0] },
            InstKindView::MakeError { .. } => InstKindView::MakeError { message: new[0] },
            InstKindView::Assert { message, .. } => InstKindView::Assert { condition: new[0], message: match message { Some(_) => Some(new[1]), None => None } },
            InstKindView::Panic { .. } => InstKindView::Panic { message: new[0] },
            InstKindView::Convert { to, .. } => InstKindView::Convert { value: new[0], to },
            InstKindView::Reinterpret { to, .. } => InstKindView::Reinterpret { value: new[0], to },
            InstKindView::IsType { ty, .. } => InstKindView::IsType { value: new[0], ty },
            InstKindView::Call { callee, type_args, .. } => InstKindView::Call { callee, type_args, args: new },
            InstKindView::CallIndirect { .. } => InstKindView::CallIndirect { callee: new[0], args: new.skip(1) },
            InstKindView::CallVirtual { method, .. } => InstKindView::CallVirtual { method, receiver: new[0], args: new.skip(1) },
            InstKindView::MakeDyn { interface, .. } => InstKindView::MakeDyn { interface, value: new[0] },
            InstKindView::DynValue { .. } => InstKindView::DynValue { value: new[0] },
            InstKindView::MakeClosure { func, .. } => InstKindView::MakeClosure { func, captures: new },
            InstKindView::CopyValue { allocation, .. } => InstKindView::CopyValue { value: new[0], allocation },
            InstKindView::Freeze { .. } => InstKindView::Freeze { value: new[0] },
            InstKindView::MakeStruct { ty, allocation, .. } => InstKindView::MakeStruct { ty, fields: new, allocation },
            InstKindView::GetField { field, .. } => InstKindView::GetField { object: new[0], field },
            InstKindView::SetField { field, .. } => InstKindView::SetField { object: new[0], field, value: new[1] },
            InstKindView::MakeEnum { ty, variant, .. } => InstKindView::MakeEnum { ty, variant, payload: new },
            InstKindView::GetTag { .. } => InstKindView::GetTag { value: new[0] },
            InstKindView::GetPayload { variant, field, .. } => InstKindView::GetPayload { value: new[0], variant, field },
            InstKindView::MakeTuple(_) => InstKindView::MakeTuple(new),
            InstKindView::GetElement { index, .. } => InstKindView::GetElement { tuple: new[0], index },
            InstKindView::MakeList { element, .. } => InstKindView::MakeList { element, values: new },
            InstKindView::MakeMap { key, value, .. } => InstKindView::MakeMap { key, value, entries: paired(new) },
            InstKindView::MakeSet { element, .. } => InstKindView::MakeSet { element, values: new },
            InstKindView::ListPush { .. } => InstKindView::ListPush { receiver: new[0], value: new[1] },
            InstKindView::ListPop { .. } => InstKindView::ListPop { receiver: new[0] },
            InstKindView::ListInsert { .. } => InstKindView::ListInsert { receiver: new[0], index: new[1], value: new[2] },
            InstKindView::ListRemoveAt { .. } => InstKindView::ListRemoveAt { receiver: new[0], index: new[1] },
            InstKindView::SetInsert { .. } => InstKindView::SetInsert { receiver: new[0], value: new[1] },
            InstKindView::Clear { .. } => InstKindView::Clear { receiver: new[0] },
            InstKindView::MapRemove { .. } => InstKindView::MapRemove { receiver: new[0], key: new[1] },
            InstKindView::SetRemove { .. } => InstKindView::SetRemove { receiver: new[0], value: new[1] },
            InstKindView::Contains { .. } => InstKindView::Contains { receiver: new[0], value: new[1] },
            InstKindView::MakeSlice { inclusive, .. } => InstKindView::MakeSlice { receiver: new[0], range: new[1], inclusive },
            InstKindView::MakeCheckedSlice { inclusive, .. } => InstKindView::MakeCheckedSlice { receiver: new[0], range: new[1], inclusive },
            InstKindView::KeepAlive { .. } => InstKindView::KeepAlive { value: new[0] },
            InstKindView::ReleaseSlice { .. } => InstKindView::ReleaseSlice { value: new[0] },
            InstKindView::Overflowing { mode, op, .. } => InstKindView::Overflowing { mode, op, left: new[0], right: new[1] },
            InstKindView::Length { .. } => InstKindView::Length { receiver: new[0] },
            InstKindView::Buckets { .. } => InstKindView::Buckets { receiver: new[0] },
            InstKindView::Occupied { .. } => InstKindView::Occupied { receiver: new[0], index: new[1] },
            InstKindView::EntryKey { .. } => InstKindView::EntryKey { receiver: new[0], index: new[1] },
            InstKindView::EntryValue { .. } => InstKindView::EntryValue { receiver: new[0], index: new[1] },
            InstKindView::GetIndex { .. } => InstKindView::GetIndex { receiver: new[0], index: new[1] },
            InstKindView::GetUncheckedIndex { .. } => InstKindView::GetUncheckedIndex { receiver: new[0], index: new[1] },
            InstKindView::GetCheckedIndex { .. } => InstKindView::GetCheckedIndex { receiver: new[0], index: new[1] },
            InstKindView::SetIndex { .. } => InstKindView::SetIndex { receiver: new[0], index: new[1], value: new[2] },
            InstKindView::SetUncheckedIndex { .. } => InstKindView::SetUncheckedIndex { receiver: new[0], index: new[1], value: new[2] },
            InstKindView::MakeSome { .. } => InstKindView::MakeSome { value: new[0] },
            InstKindView::IsSome { .. } => InstKindView::IsSome { value: new[0] },
            InstKindView::Unwrap { .. } => InstKindView::Unwrap { value: new[0] },
            InstKindView::FieldAddress { mutable, field, .. } => InstKindView::FieldAddress { mutable, object: new[0], field },
            InstKindView::Offset { .. } => InstKindView::Offset { pointer: new[0], count: new[1] },
            InstKindView::Load { .. } => InstKindView::Load { pointer: new[0] },
            InstKindView::Store { .. } => InstKindView::Store { pointer: new[0], value: new[1] },
            InstKindView::SlotSet { slot, .. } => InstKindView::SlotSet { slot, value: new[0] },
            InstKindView::Await { .. } => InstKindView::Await { task: new[0] },
            InstKindView::Cancel { .. } => InstKindView::Cancel { task: new[0], error: new[1] },
            other => other,
        }
    }

    /// The instruction with each type it names filled in.
    pub open spec fn substitute(self, params: Seq<Seq<char>>, args: Seq<TyView>) -> InstKindView {
        match self {
            InstKindView::Convert { value, to } => InstKindView::Convert { value, to: to.substitute(params, args) },
            InstKindView::Reinterpret { value, to } => InstKindView::Reinterpret { value, to: to.substitute(params, args) },
            InstKindView::IsType { value, ty } => InstKindView::IsType { value, ty: ty.substitute(params, args) },
            InstKindView::Call { callee, type_args, args: passed } => InstKindView::Call { callee, type_args: substitute_all(type_args, params, args), args: passed },
            InstKindView::MakeStruct { ty, fields, allocation } => InstKindView::MakeStruct { ty: ty.substitute(params, args), fields, allocation },
            InstKindView::MakeEnum { ty, variant, payload } => InstKindView::MakeEnum { ty: ty.substitute(params, args), variant, payload },
            InstKindView::MakeList { element, values } => InstKindView::MakeList { element: element.substitute(params, args), values },
            InstKindView::MakeMap { key, value, entries } => InstKindView::MakeMap { key: key.substitute(params, args), value: value.substitute(params, args), entries },
            InstKindView::MakeSet { element, values } => InstKindView::MakeSet { element: element.substitute(params, args), values },
            other => other,
        }
    }
}

impl InstKind {
    /// What the instruction does besides producing its result.
    #[must_use]
    pub fn effect(&self) -> (effect: Effect)
        ensures
            effect == self@.effect(),
    {
        match self {
            InstKind::Const(_)
            | InstKind::Unary { .. }
            | InstKind::HashValue { .. }
            | InstKind::HashCombine { .. }
            | InstKind::DisplayValue { .. }
            | InstKind::MakeError { .. }
            | InstKind::Convert { .. }
            | InstKind::Reinterpret { .. }
            | InstKind::IsType { .. }
            | InstKind::MakeDyn { .. }
            | InstKind::DynValue { .. }
            | InstKind::MakeClosure { .. }
            | InstKind::CopyValue { .. }
            | InstKind::Freeze { .. }
            | InstKind::MakeStruct { .. }
            | InstKind::GetField { .. }
            | InstKind::MakeEnum { .. }
            | InstKind::GetTag { .. }
            | InstKind::GetPayload { .. }
            | InstKind::MakeTuple(_)
            | InstKind::GetElement { .. }
            | InstKind::MakeList { .. }
            | InstKind::MakeMap { .. }
            | InstKind::MakeSet { .. }
            | InstKind::Contains { .. }
            | InstKind::MakeCheckedSlice { .. }
            | InstKind::Overflowing { .. }
            | InstKind::Length { .. }
            | InstKind::Buckets { .. }
            | InstKind::Occupied { .. }
            | InstKind::EntryKey { .. }
            | InstKind::EntryValue { .. }
            | InstKind::GetUncheckedIndex { .. }
            | InstKind::GetCheckedIndex { .. }
            | InstKind::MakeSome { .. }
            | InstKind::IsSome { .. }
            | InstKind::Unwrap { .. }
            | InstKind::AddressOf { .. }
            | InstKind::FieldAddress { .. }
            | InstKind::Offset { .. } => Effect::Pure,
            InstKind::Binary { op, .. } => if op.can_trap() {
                Effect::Trap
            } else {
                Effect::Pure
            },
            InstKind::Assert { .. }
            | InstKind::MakeSlice { .. }
            | InstKind::GetIndex { .. } => Effect::Trap,
            InstKind::Print { .. }
            | InstKind::Panic { .. }
            | InstKind::Call { .. }
            | InstKind::CallIndirect { .. }
            | InstKind::CallVirtual { .. }
            | InstKind::SetField { .. }
            | InstKind::ListPush { .. }
            | InstKind::ListPop { .. }
            | InstKind::ListInsert { .. }
            | InstKind::ListRemoveAt { .. }
            | InstKind::SetInsert { .. }
            | InstKind::Clear { .. }
            | InstKind::MapRemove { .. }
            | InstKind::SetRemove { .. }
            | InstKind::KeepAlive { .. }
            | InstKind::ReleaseSlice { .. }
            | InstKind::SetIndex { .. }
            | InstKind::SetUncheckedIndex { .. }
            | InstKind::Load { .. }
            | InstKind::Store { .. }
            | InstKind::SlotGet { .. }
            | InstKind::SlotSet { .. }
            | InstKind::Await { .. }
            | InstKind::CancellationPoint
            | InstKind::Cancel { .. } => Effect::State,
        }
    }

    /// The values the instruction reads, in the order it names them.
    #[must_use]
    pub fn operands(&self) -> (operands: Vec<Value>)
        ensures
            operands@ == self@.operands(),
    {
        let mut found: Vec<Value> = Vec::new();
        match self {
            InstKind::Unary { operand, .. } => {
                found.push(*operand);
            },
            InstKind::Binary { left, right, .. } => {
                found.push(*left);
                found.push(*right);
            },
            InstKind::HashValue { value } => {
                found.push(*value);
            },
            InstKind::HashCombine { state, value } => {
                found.push(*state);
                found.push(*value);
            },
            InstKind::DisplayValue { value } => {
                found.push(*value);
            },
            InstKind::Print { value } => {
                found.push(*value);
            },
            InstKind::MakeError { message } => {
                found.push(*message);
            },
            InstKind::Assert { condition, message } => {
                found.push(*condition);
                push_maybe(&mut found, message);
            },
            InstKind::Panic { message } => {
                found.push(*message);
            },
            InstKind::Convert { value, .. } => {
                found.push(*value);
            },
            InstKind::Reinterpret { value, .. } => {
                found.push(*value);
            },
            InstKind::IsType { value, .. } => {
                found.push(*value);
            },
            InstKind::Call { args, .. } => {
                push_values(&mut found, args);
            },
            InstKind::CallIndirect { callee, args } => {
                found.push(*callee);
                push_values(&mut found, args);
            },
            InstKind::CallVirtual { receiver, args, .. } => {
                found.push(*receiver);
                push_values(&mut found, args);
            },
            InstKind::MakeDyn { value, .. } => {
                found.push(*value);
            },
            InstKind::DynValue { value } => {
                found.push(*value);
            },
            InstKind::MakeClosure { captures, .. } => {
                push_values(&mut found, captures);
            },
            InstKind::CopyValue { value, .. } => {
                found.push(*value);
            },
            InstKind::Freeze { value } => {
                found.push(*value);
            },
            InstKind::MakeStruct { fields, .. } => {
                push_values(&mut found, fields);
            },
            InstKind::GetField { object, .. } => {
                found.push(*object);
            },
            InstKind::SetField { object, value, .. } => {
                found.push(*object);
                found.push(*value);
            },
            InstKind::MakeEnum { payload, .. } => {
                push_values(&mut found, payload);
            },
            InstKind::GetTag { value } => {
                found.push(*value);
            },
            InstKind::GetPayload { value, .. } => {
                found.push(*value);
            },
            InstKind::MakeTuple(held) => {
                push_values(&mut found, held);
            },
            InstKind::GetElement { tuple, .. } => {
                found.push(*tuple);
            },
            InstKind::MakeList { values, .. } => {
                push_values(&mut found, values);
            },
            InstKind::MakeMap { entries, .. } => {
                push_pairs(&mut found, entries);
            },
            InstKind::MakeSet { values, .. } => {
                push_values(&mut found, values);
            },
            InstKind::ListPush { receiver, value } => {
                found.push(*receiver);
                found.push(*value);
            },
            InstKind::ListPop { receiver } => {
                found.push(*receiver);
            },
            InstKind::ListInsert { receiver, index, value } => {
                found.push(*receiver);
                found.push(*index);
                found.push(*value);
            },
            InstKind::ListRemoveAt { receiver, index } => {
                found.push(*receiver);
                found.push(*index);
            },
            InstKind::SetInsert { receiver, value } => {
                found.push(*receiver);
                found.push(*value);
            },
            InstKind::Clear { receiver } => {
                found.push(*receiver);
            },
            InstKind::MapRemove { receiver, key } => {
                found.push(*receiver);
                found.push(*key);
            },
            InstKind::SetRemove { receiver, value } => {
                found.push(*receiver);
                found.push(*value);
            },
            InstKind::Contains { receiver, value } => {
                found.push(*receiver);
                found.push(*value);
            },
            InstKind::MakeSlice { receiver, range, .. } => {
                found.push(*receiver);
                found.push(*range);
            },
            InstKind::MakeCheckedSlice { receiver, range, .. } => {
                found.push(*receiver);
                found.push(*range);
            },
            InstKind::KeepAlive { value } => {
                found.push(*value);
            },
            InstKind::ReleaseSlice { value } => {
                found.push(*value);
            },
            InstKind::Overflowing { left, right, .. } => {
                found.push(*left);
                found.push(*right);
            },
            InstKind::Length { receiver } => {
                found.push(*receiver);
            },
            InstKind::Buckets { receiver } => {
                found.push(*receiver);
            },
            InstKind::Occupied { receiver, index } => {
                found.push(*receiver);
                found.push(*index);
            },
            InstKind::EntryKey { receiver, index } => {
                found.push(*receiver);
                found.push(*index);
            },
            InstKind::EntryValue { receiver, index } => {
                found.push(*receiver);
                found.push(*index);
            },
            InstKind::GetIndex { receiver, index } => {
                found.push(*receiver);
                found.push(*index);
            },
            InstKind::GetUncheckedIndex { receiver, index } => {
                found.push(*receiver);
                found.push(*index);
            },
            InstKind::GetCheckedIndex { receiver, index } => {
                found.push(*receiver);
                found.push(*index);
            },
            InstKind::SetIndex { receiver, index, value } => {
                found.push(*receiver);
                found.push(*index);
                found.push(*value);
            },
            InstKind::SetUncheckedIndex { receiver, index, value } => {
                found.push(*receiver);
                found.push(*index);
                found.push(*value);
            },
            InstKind::MakeSome { value } => {
                found.push(*value);
            },
            InstKind::IsSome { value } => {
                found.push(*value);
            },
            InstKind::Unwrap { value } => {
                found.push(*value);
            },
            InstKind::FieldAddress { object, .. } => {
                found.push(*object);
            },
            InstKind::Offset { pointer, count } => {
                found.push(*pointer);
                found.push(*count);
            },
            InstKind::Load { pointer } => {
                found.push(*pointer);
            },
            InstKind::Store { pointer, value } => {
                found.push(*pointer);
                found.push(*value);
            },
            InstKind::SlotSet { value, .. } => {
                found.push(*value);
            },
            InstKind::Await { task } => {
                found.push(*task);
            },
            InstKind::Cancel { task, error } => {
                found.push(*task);
                found.push(*error);
            },
            InstKind::Const(_)
            | InstKind::AddressOf { .. }
            | InstKind::SlotGet { .. }
            | InstKind::CancellationPoint => {},
        }
        assert(found@ =~= self@.operands());
        found
    }

    /// The instruction with each value and slot replaced by what the tables
    /// give for it.
    #[must_use]
    pub fn renamed(&self, values: &Vec<Value>, slots: &Vec<SlotId>) -> (renamed: InstKind)
        requires
            self@.within(values@.len(), slots@.len()),
        ensures
            renamed@ == self@.renamed(values@, slots@),
    {
        match self {
            InstKind::Const(held) => InstKind::Const(held.clone()),
            InstKind::Unary { op, operand } => InstKind::Unary { op: *op, operand: values[operand.0 as usize] },
            InstKind::Binary { op, left, right } => InstKind::Binary { op: *op, left: values[left.0 as usize], right: values[right.0 as usize] },
            InstKind::HashValue { value } => InstKind::HashValue { value: values[value.0 as usize] },
            InstKind::HashCombine { state, value } => InstKind::HashCombine { state: values[state.0 as usize], value: values[value.0 as usize] },
            InstKind::DisplayValue { value } => InstKind::DisplayValue { value: values[value.0 as usize] },
            InstKind::Print { value } => InstKind::Print { value: values[value.0 as usize] },
            InstKind::MakeError { message } => InstKind::MakeError { message: values[message.0 as usize] },
            InstKind::Assert { condition, message } => InstKind::Assert { condition: values[condition.0 as usize], message: renamed_maybe(message, values) },
            InstKind::Panic { message } => InstKind::Panic { message: values[message.0 as usize] },
            InstKind::Convert { value, to } => InstKind::Convert { value: values[value.0 as usize], to: to.clone() },
            InstKind::Reinterpret { value, to } => InstKind::Reinterpret { value: values[value.0 as usize], to: to.clone() },
            InstKind::IsType { value, ty } => InstKind::IsType { value: values[value.0 as usize], ty: ty.clone() },
            InstKind::Call { callee, type_args, args } => InstKind::Call { callee: *callee, type_args: clone_tys(type_args), args: renamed_values(args, values) },
            InstKind::CallIndirect { callee, args } => InstKind::CallIndirect { callee: values[callee.0 as usize], args: renamed_values(args, values) },
            InstKind::CallVirtual { method, receiver, args } => InstKind::CallVirtual { method: *method, receiver: values[receiver.0 as usize], args: renamed_values(args, values) },
            InstKind::MakeDyn { interface, value } => InstKind::MakeDyn { interface: *interface, value: values[value.0 as usize] },
            InstKind::DynValue { value } => InstKind::DynValue { value: values[value.0 as usize] },
            InstKind::MakeClosure { func, captures } => InstKind::MakeClosure { func: *func, captures: renamed_values(captures, values) },
            InstKind::CopyValue { value, allocation } => InstKind::CopyValue { value: values[value.0 as usize], allocation: *allocation },
            InstKind::Freeze { value } => InstKind::Freeze { value: values[value.0 as usize] },
            InstKind::MakeStruct { ty, fields, allocation } => InstKind::MakeStruct { ty: ty.clone(), fields: renamed_values(fields, values), allocation: *allocation },
            InstKind::GetField { object, field } => InstKind::GetField { object: values[object.0 as usize], field: *field },
            InstKind::SetField { object, field, value } => InstKind::SetField { object: values[object.0 as usize], field: *field, value: values[value.0 as usize] },
            InstKind::MakeEnum { ty, variant, payload } => InstKind::MakeEnum { ty: ty.clone(), variant: *variant, payload: renamed_values(payload, values) },
            InstKind::GetTag { value } => InstKind::GetTag { value: values[value.0 as usize] },
            InstKind::GetPayload { value, variant, field } => InstKind::GetPayload { value: values[value.0 as usize], variant: *variant, field: *field },
            InstKind::MakeTuple(held) => InstKind::MakeTuple(renamed_values(held, values)),
            InstKind::GetElement { tuple, index } => InstKind::GetElement { tuple: values[tuple.0 as usize], index: *index },
            InstKind::MakeList { element, values: held } => InstKind::MakeList { element: element.clone(), values: renamed_values(held, values) },
            InstKind::MakeMap { key, value, entries } => InstKind::MakeMap { key: key.clone(), value: value.clone(), entries: renamed_pairs(entries, values) },
            InstKind::MakeSet { element, values: held } => InstKind::MakeSet { element: element.clone(), values: renamed_values(held, values) },
            InstKind::ListPush { receiver, value } => InstKind::ListPush { receiver: values[receiver.0 as usize], value: values[value.0 as usize] },
            InstKind::ListPop { receiver } => InstKind::ListPop { receiver: values[receiver.0 as usize] },
            InstKind::ListInsert { receiver, index, value } => InstKind::ListInsert { receiver: values[receiver.0 as usize], index: values[index.0 as usize], value: values[value.0 as usize] },
            InstKind::ListRemoveAt { receiver, index } => InstKind::ListRemoveAt { receiver: values[receiver.0 as usize], index: values[index.0 as usize] },
            InstKind::SetInsert { receiver, value } => InstKind::SetInsert { receiver: values[receiver.0 as usize], value: values[value.0 as usize] },
            InstKind::Clear { receiver } => InstKind::Clear { receiver: values[receiver.0 as usize] },
            InstKind::MapRemove { receiver, key } => InstKind::MapRemove { receiver: values[receiver.0 as usize], key: values[key.0 as usize] },
            InstKind::SetRemove { receiver, value } => InstKind::SetRemove { receiver: values[receiver.0 as usize], value: values[value.0 as usize] },
            InstKind::Contains { receiver, value } => InstKind::Contains { receiver: values[receiver.0 as usize], value: values[value.0 as usize] },
            InstKind::MakeSlice { receiver, range, inclusive } => InstKind::MakeSlice { receiver: values[receiver.0 as usize], range: values[range.0 as usize], inclusive: *inclusive },
            InstKind::MakeCheckedSlice { receiver, range, inclusive } => InstKind::MakeCheckedSlice { receiver: values[receiver.0 as usize], range: values[range.0 as usize], inclusive: *inclusive },
            InstKind::KeepAlive { value } => InstKind::KeepAlive { value: values[value.0 as usize] },
            InstKind::ReleaseSlice { value } => InstKind::ReleaseSlice { value: values[value.0 as usize] },
            InstKind::Overflowing { mode, op, left, right } => InstKind::Overflowing { mode: *mode, op: *op, left: values[left.0 as usize], right: values[right.0 as usize] },
            InstKind::Length { receiver } => InstKind::Length { receiver: values[receiver.0 as usize] },
            InstKind::Buckets { receiver } => InstKind::Buckets { receiver: values[receiver.0 as usize] },
            InstKind::Occupied { receiver, index } => InstKind::Occupied { receiver: values[receiver.0 as usize], index: values[index.0 as usize] },
            InstKind::EntryKey { receiver, index } => InstKind::EntryKey { receiver: values[receiver.0 as usize], index: values[index.0 as usize] },
            InstKind::EntryValue { receiver, index } => InstKind::EntryValue { receiver: values[receiver.0 as usize], index: values[index.0 as usize] },
            InstKind::GetIndex { receiver, index } => InstKind::GetIndex { receiver: values[receiver.0 as usize], index: values[index.0 as usize] },
            InstKind::GetUncheckedIndex { receiver, index } => InstKind::GetUncheckedIndex { receiver: values[receiver.0 as usize], index: values[index.0 as usize] },
            InstKind::GetCheckedIndex { receiver, index } => InstKind::GetCheckedIndex { receiver: values[receiver.0 as usize], index: values[index.0 as usize] },
            InstKind::SetIndex { receiver, index, value } => InstKind::SetIndex { receiver: values[receiver.0 as usize], index: values[index.0 as usize], value: values[value.0 as usize] },
            InstKind::SetUncheckedIndex { receiver, index, value } => InstKind::SetUncheckedIndex { receiver: values[receiver.0 as usize], index: values[index.0 as usize], value: values[value.0 as usize] },
            InstKind::MakeSome { value } => InstKind::MakeSome { value: values[value.0 as usize] },
            InstKind::IsSome { value } => InstKind::IsSome { value: values[value.0 as usize] },
            InstKind::Unwrap { value } => InstKind::Unwrap { value: values[value.0 as usize] },
            InstKind::AddressOf { mutable, slot } => InstKind::AddressOf { mutable: *mutable, slot: slots[slot.0 as usize] },
            InstKind::FieldAddress { mutable, object, field } => InstKind::FieldAddress { mutable: *mutable, object: values[object.0 as usize], field: *field },
            InstKind::Offset { pointer, count } => InstKind::Offset { pointer: values[pointer.0 as usize], count: values[count.0 as usize] },
            InstKind::Load { pointer } => InstKind::Load { pointer: values[pointer.0 as usize] },
            InstKind::Store { pointer, value } => InstKind::Store { pointer: values[pointer.0 as usize], value: values[value.0 as usize] },
            InstKind::SlotGet { slot } => InstKind::SlotGet { slot: slots[slot.0 as usize] },
            InstKind::SlotSet { slot, value } => InstKind::SlotSet { slot: slots[slot.0 as usize], value: values[value.0 as usize] },
            InstKind::Await { task } => InstKind::Await { task: values[task.0 as usize] },
            InstKind::CancellationPoint => InstKind::CancellationPoint,
            InstKind::Cancel { task, error } => InstKind::Cancel { task: values[task.0 as usize], error: values[error.0 as usize] },
        }
    }

    /// The instruction reading `new` in the place of what it reads, in order.
    #[must_use]
    pub fn with_operands(&self, new: &Vec<Value>) -> (changed: InstKind)
        requires
            new@.len() == self@.operands().len(),
        ensures
            changed@ == self@.with_operands(new@),
    {
        match self {
            InstKind::Unary { op, .. } => InstKind::Unary { op: *op, operand: new[0] },
            InstKind::Binary { op, .. } => InstKind::Binary { op: *op, left: new[0], right: new[1] },
            InstKind::HashValue { .. } => InstKind::HashValue { value: new[0] },
            InstKind::HashCombine { .. } => InstKind::HashCombine { state: new[0], value: new[1] },
            InstKind::DisplayValue { .. } => InstKind::DisplayValue { value: new[0] },
            InstKind::Print { .. } => InstKind::Print { value: new[0] },
            InstKind::MakeError { .. } => InstKind::MakeError { message: new[0] },
            InstKind::Assert { message, .. } => InstKind::Assert { condition: new[0], message: match message { Some(_) => Some(new[1]), None => None } },
            InstKind::Panic { .. } => InstKind::Panic { message: new[0] },
            InstKind::Convert { to, .. } => InstKind::Convert { value: new[0], to: to.clone() },
            InstKind::Reinterpret { to, .. } => InstKind::Reinterpret { value: new[0], to: to.clone() },
            InstKind::IsType { ty, .. } => InstKind::IsType { value: new[0], ty: ty.clone() },
            InstKind::Call { callee, type_args, .. } => InstKind::Call { callee: *callee, type_args: clone_tys(type_args), args: clone_values(new) },
            InstKind::CallIndirect { .. } => InstKind::CallIndirect { callee: new[0], args: values_from(new, 1) },
            InstKind::CallVirtual { method, .. } => InstKind::CallVirtual { method: *method, receiver: new[0], args: values_from(new, 1) },
            InstKind::MakeDyn { interface, .. } => InstKind::MakeDyn { interface: *interface, value: new[0] },
            InstKind::DynValue { .. } => InstKind::DynValue { value: new[0] },
            InstKind::MakeClosure { func, .. } => InstKind::MakeClosure { func: *func, captures: clone_values(new) },
            InstKind::CopyValue { allocation, .. } => InstKind::CopyValue { value: new[0], allocation: *allocation },
            InstKind::Freeze { .. } => InstKind::Freeze { value: new[0] },
            InstKind::MakeStruct { ty, allocation, .. } => InstKind::MakeStruct { ty: ty.clone(), fields: clone_values(new), allocation: *allocation },
            InstKind::GetField { field, .. } => InstKind::GetField { object: new[0], field: *field },
            InstKind::SetField { field, .. } => InstKind::SetField { object: new[0], field: *field, value: new[1] },
            InstKind::MakeEnum { ty, variant, .. } => InstKind::MakeEnum { ty: ty.clone(), variant: *variant, payload: clone_values(new) },
            InstKind::GetTag { .. } => InstKind::GetTag { value: new[0] },
            InstKind::GetPayload { variant, field, .. } => InstKind::GetPayload { value: new[0], variant: *variant, field: *field },
            InstKind::MakeTuple(_) => InstKind::MakeTuple(clone_values(new)),
            InstKind::GetElement { index, .. } => InstKind::GetElement { tuple: new[0], index: *index },
            InstKind::MakeList { element, .. } => InstKind::MakeList { element: element.clone(), values: clone_values(new) },
            InstKind::MakeMap { key, value, .. } => InstKind::MakeMap { key: key.clone(), value: value.clone(), entries: pair_up(new) },
            InstKind::MakeSet { element, .. } => InstKind::MakeSet { element: element.clone(), values: clone_values(new) },
            InstKind::ListPush { .. } => InstKind::ListPush { receiver: new[0], value: new[1] },
            InstKind::ListPop { .. } => InstKind::ListPop { receiver: new[0] },
            InstKind::ListInsert { .. } => InstKind::ListInsert { receiver: new[0], index: new[1], value: new[2] },
            InstKind::ListRemoveAt { .. } => InstKind::ListRemoveAt { receiver: new[0], index: new[1] },
            InstKind::SetInsert { .. } => InstKind::SetInsert { receiver: new[0], value: new[1] },
            InstKind::Clear { .. } => InstKind::Clear { receiver: new[0] },
            InstKind::MapRemove { .. } => InstKind::MapRemove { receiver: new[0], key: new[1] },
            InstKind::SetRemove { .. } => InstKind::SetRemove { receiver: new[0], value: new[1] },
            InstKind::Contains { .. } => InstKind::Contains { receiver: new[0], value: new[1] },
            InstKind::MakeSlice { inclusive, .. } => InstKind::MakeSlice { receiver: new[0], range: new[1], inclusive: *inclusive },
            InstKind::MakeCheckedSlice { inclusive, .. } => InstKind::MakeCheckedSlice { receiver: new[0], range: new[1], inclusive: *inclusive },
            InstKind::KeepAlive { .. } => InstKind::KeepAlive { value: new[0] },
            InstKind::ReleaseSlice { .. } => InstKind::ReleaseSlice { value: new[0] },
            InstKind::Overflowing { mode, op, .. } => InstKind::Overflowing { mode: *mode, op: *op, left: new[0], right: new[1] },
            InstKind::Length { .. } => InstKind::Length { receiver: new[0] },
            InstKind::Buckets { .. } => InstKind::Buckets { receiver: new[0] },
            InstKind::Occupied { .. } => InstKind::Occupied { receiver: new[0], index: new[1] },
            InstKind::EntryKey { .. } => InstKind::EntryKey { receiver: new[0], index: new[1] },
            InstKind::EntryValue { .. } => InstKind::EntryValue { receiver: new[0], index: new[1] },
            InstKind::GetIndex { .. } => InstKind::GetIndex { receiver: new[0], index: new[1] },
            InstKind::GetUncheckedIndex { .. } => InstKind::GetUncheckedIndex { receiver: new[0], index: new[1] },
            InstKind::GetCheckedIndex { .. } => InstKind::GetCheckedIndex { receiver: new[0], index: new[1] },
            InstKind::SetIndex { .. } => InstKind::SetIndex { receiver: new[0], index: new[1], value: new[2] },
            InstKind::SetUncheckedIndex { .. } => InstKind::SetUncheckedIndex { receiver: new[0], index: new[1], value: new[2] },
            InstKind::MakeSome { .. } => InstKind::MakeSome { value: new[0] },
            InstKind::IsSome { .. } => InstKind::IsSome { value: new[0] },
            InstKind::Unwrap { .. } => InstKind::Unwrap { value: new[0] },
            InstKind::FieldAddress { mutable, field, .. } => InstKind::FieldAddress { mutable: *mutable, object: new[0], field: *field },
            InstKind::Offset { .. } => InstKind::Offset { pointer: new[0], count: new[1] },
            InstKind::Load { .. } => InstKind::Load { pointer: new[0] },
            InstKind::Store { .. } => InstKind::Store { pointer: new[0], value: new[1] },
            InstKind::SlotSet { slot, .. } => InstKind::SlotSet { slot: *slot, value: new[0] },
            InstKind::Await { .. } => InstKind::Await { task: new[0] },
            InstKind::Cancel { .. } => InstKind::Cancel { task: new[0], error: new[1] },
            other => other.clone(),
        }
    }

    /// The instruction with each type it names filled in.
    #[must_use]
    pub fn substitute(&self, params: &Vec<String>, args: &Vec<Ty>) -> (filled: InstKind)
        ensures
            filled@ == self@.substitute(names(params@), tys(args@)),
    {
        match self {
            InstKind::Convert { value, to } => InstKind::Convert { value: *value, to: to.substitute(params, args) },
            InstKind::Reinterpret { value, to } => InstKind::Reinterpret { value: *value, to: to.substitute(params, args) },
            InstKind::IsType { value, ty } => InstKind::IsType { value: *value, ty: ty.substitute(params, args) },
            InstKind::Call { callee, type_args, args: passed } => InstKind::Call { callee: *callee, type_args: substitute_each(type_args, params, args), args: clone_values(passed) },
            InstKind::MakeStruct { ty, fields, allocation } => InstKind::MakeStruct { ty: ty.substitute(params, args), fields: clone_values(fields), allocation: *allocation },
            InstKind::MakeEnum { ty, variant, payload } => InstKind::MakeEnum { ty: ty.substitute(params, args), variant: *variant, payload: clone_values(payload) },
            InstKind::MakeList { element, values } => InstKind::MakeList { element: element.substitute(params, args), values: clone_values(values) },
            InstKind::MakeMap { key, value, entries } => InstKind::MakeMap { key: key.substitute(params, args), value: value.substitute(params, args), entries: clone_pairs(entries) },
            InstKind::MakeSet { element, values } => InstKind::MakeSet { element: element.substitute(params, args), values: clone_values(values) },
            other => other.clone(),
        }
    }
}


/// A jump, and the values it passes to the block it lands in.
#[derive(Debug, PartialEq)]
pub struct Target {
    pub block: BlockId,
    /// One per parameter of the target block, in order.
    pub args: Vec<Value>,
}

/// A [`Target`] with its arguments as a sequence.
pub struct TargetView {
    pub block: BlockId,
    pub args: Seq<Value>,
}

impl View for Target {
    type V = TargetView;

    open spec fn view(&self) -> TargetView {
        TargetView { block: self.block, args: self.args@ }
    }
}

impl Clone for Target {
    fn clone(&self) -> (copy: Target)
        ensures
            copy@ == self@,
    {
        Target { block: self.block, args: clone_values(&self.args) }
    }
}

impl TargetView {
    /// Whether the jump names only the first `values` and `blocks`.
    pub open spec fn within(self, values: nat, blocks: nat) -> bool {
        self.block.0 < blocks && values_within(self.args, values)
    }

    /// A jump to a block that takes no parameters.
    pub open spec fn to(block: BlockId) -> TargetView {
        TargetView { block, args: Seq::empty() }
    }
}

impl Target {
    /// A jump to `block` that passes `args`.
    #[must_use]
    pub fn new(block: BlockId, args: Vec<Value>) -> (target: Target)
        ensures
            target@ == (TargetView { block, args: args@ }),
    {
        Target { block, args }
    }

    /// A jump to a block that takes no parameters.
    #[must_use]
    pub fn to(block: BlockId) -> (target: Target)
        ensures
            target@ == TargetView::to(block),
    {
        let target = Target { block, args: Vec::new() };
        assert(target@.args =~= Seq::empty());
        target
    }
}

/// What ends a block. Every block has exactly one.
#[derive(Debug, PartialEq)]
pub enum Terminator {
    Jump(Target),
    Branch { condition: Value, then: Target, otherwise: Target },
    /// A jump chosen by an integer, which is how a `match` over an enum's tag
    /// leaves its block. The cases are in ascending order of the tag they
    /// match, so a reader can find one without scanning.
    Switch { value: Value, cases: Vec<(u64, Target)>, default: Target },
    /// Leaving the function. A function with no result returns a value of
    /// [`Ty::Unit`], so there is always one.
    Return(Value),
    Trap(Trap),
}

/// A [`Terminator`] with its sequences as mathematical values.
pub enum TerminatorView {
    Jump(TargetView),
    Branch { condition: Value, then: TargetView, otherwise: TargetView },
    Switch { value: Value, cases: Seq<(u64, TargetView)>, default: TargetView },
    Return(Value),
    Trap(Trap),
}

/// The views of a switch's cases.
pub open spec fn case_views(cases: Seq<(u64, Target)>) -> Seq<(u64, TargetView)> {
    Seq::new(cases.len(), |i: int| (cases[i].0, cases[i].1@))
}

/// The views of several jumps.
pub open spec fn target_views(targets: Seq<&Target>) -> Seq<TargetView> {
    Seq::new(targets.len(), |i: int| targets[i]@)
}

/// The view of an optional terminator.
pub open spec fn maybe_term(term: Option<Terminator>) -> Option<TerminatorView> {
    match term {
        Some(held) => Some(held@),
        None => None,
    }
}

impl View for Terminator {
    type V = TerminatorView;

    open spec fn view(&self) -> TerminatorView {
        match *self {
            Terminator::Jump(to) => TerminatorView::Jump(to@),
            Terminator::Branch { condition, then, otherwise } => TerminatorView::Branch {
                condition,
                then: then@,
                otherwise: otherwise@,
            },
            Terminator::Switch { value, cases, default } => TerminatorView::Switch {
                value,
                cases: case_views(cases@),
                default: default@,
            },
            Terminator::Return(value) => TerminatorView::Return(value),
            Terminator::Trap(trap) => TerminatorView::Trap(trap),
        }
    }
}

fn clone_cases(cases: &Vec<(u64, Target)>) -> (copy: Vec<(u64, Target)>)
    ensures
        case_views(copy@) == case_views(cases@),
{
    let mut copied: Vec<(u64, Target)> = Vec::new();
    let mut i: usize = 0;
    while i < cases.len()
        invariant
            i <= cases.len(),
            case_views(copied@) == case_views(cases@).take(i as int),
        decreases cases.len() - i,
    {
        let ghost before = copied@;
        copied.push((cases[i].0, cases[i].1.clone()));
        assert(copied@.drop_last() =~= before);
        assert(case_views(copied@) =~= case_views(before).push(case_views(cases@)[i as int]));
        assert(case_views(copied@) =~= case_views(cases@).take(i + 1));
        i += 1;
    }
    assert(case_views(copied@) =~= case_views(cases@));
    copied
}

impl Clone for Terminator {
    fn clone(&self) -> (copy: Terminator)
        ensures
            copy@ == self@,
    {
        match self {
            Terminator::Jump(to) => Terminator::Jump(to.clone()),
            Terminator::Branch { condition, then, otherwise } => Terminator::Branch {
                condition: *condition,
                then: then.clone(),
                otherwise: otherwise.clone(),
            },
            Terminator::Switch { value, cases, default } => Terminator::Switch {
                value: *value,
                cases: clone_cases(cases),
                default: default.clone(),
            },
            Terminator::Return(value) => Terminator::Return(*value),
            Terminator::Trap(trap) => Terminator::Trap(*trap),
        }
    }
}

/// A copy of an optional terminator.
pub fn clone_maybe_term(term: &Option<Terminator>) -> (copy: Option<Terminator>)
    ensures
        maybe_term(copy) == maybe_term(*term),
{
    match term {
        Some(held) => Some(held.clone()),
        None => None,
    }
}

impl TerminatorView {
    /// Every jump the terminator may take, in the order it names them: a
    /// switch names its cases, then where it goes when none of them matches.
    pub open spec fn targets(self) -> Seq<TargetView> {
        match self {
            TerminatorView::Jump(to) => seq![to],
            TerminatorView::Branch { then, otherwise, .. } => seq![then, otherwise],
            TerminatorView::Switch { cases, default, .. } => Seq::new(
                cases.len(),
                |i: int| cases[i].1,
            ).push(default),
            TerminatorView::Return(_) | TerminatorView::Trap(_) => Seq::empty(),
        }
    }

    /// The value the terminator decides by or gives back, if it reads one.
    pub open spec fn decides_by(self) -> Option<Value> {
        match self {
            TerminatorView::Branch { condition, .. } => Some(condition),
            TerminatorView::Switch { value, .. } => Some(value),
            TerminatorView::Return(value) => Some(value),
            TerminatorView::Jump(_) | TerminatorView::Trap(_) => None,
        }
    }

    /// Whether the terminator names only the first `values` and `blocks`.
    pub open spec fn within(self, values: nat, blocks: nat) -> bool {
        &&& maybe_within(self.decides_by(), values)
        &&& forall|i: int|
            0 <= i < self.targets().len() ==> (#[trigger] self.targets()[i]).within(values, blocks)
    }
}

impl Terminator {
    /// Every block this one can reach, in the order it names them.
    pub fn targets(&self) -> (targets: Vec<&Target>)
        ensures
            target_views(targets@) == self@.targets(),
    {
        let mut targets: Vec<&Target> = Vec::new();
        match self {
            Terminator::Jump(to) => {
                targets.push(to);
            },
            Terminator::Branch { then, otherwise, .. } => {
                targets.push(then);
                targets.push(otherwise);
            },
            Terminator::Switch { cases, default, .. } => {
                let mut i: usize = 0;
                while i < cases.len()
                    invariant
                        i <= cases.len(),
                        targets@.len() == i,
                        forall|j: int| 0 <= j < i ==> (#[trigger] targets@[j])@ == cases@[j].1@,
                    decreases cases.len() - i,
                {
                    targets.push(&cases[i].1);
                    i += 1;
                }
                targets.push(default);
            },
            Terminator::Return(_) | Terminator::Trap(_) => {},
        }
        assert(target_views(targets@) =~= self@.targets());
        targets
    }
}

/// An instruction that names only some values and slots names only those of
/// any more.
pub proof fn within_grows(inst: InstView, values: nat, slots: nat, more: nat, more_slots: nat)
    requires
        inst.within(values, slots),
        values <= more,
        slots <= more_slots,
    ensures
        inst.within(more, more_slots),
{
}

/// The end of a block that names what is there still does when there is more.
pub proof fn term_within_grows(
    term: TerminatorView,
    values: nat,
    blocks: nat,
    more_values: nat,
    more_blocks: nat,
)
    requires
        term.within(values, blocks),
        values <= more_values,
        blocks <= more_blocks,
    ensures
        term.within(more_values, more_blocks),
{
    assert forall|i: int| 0 <= i < term.targets().len() implies (
    #[trigger] term.targets()[i]).within(more_values, more_blocks) by {
        assert(term.targets()[i].within(values, blocks));
    }
}

/// An instruction that reads what it reads is itself.
pub proof fn own_operands_change_nothing(kind: InstKindView)
    ensures
        kind.with_operands(kind.operands()) == kind,
{
    match kind {
        InstKindView::MakeMap { entries, .. } => {
            assert(paired(flat_pairs(entries)) =~= entries);
        },
        InstKindView::CallIndirect { callee, args } => {
            assert((seq![callee] + args).skip(1) =~= args);
        },
        InstKindView::CallVirtual { receiver, args, .. } => {
            assert((seq![receiver] + args).skip(1) =~= args);
        },
        _ => {},
    }
}

/// A list of no values.
pub fn no_values() -> (list: Vec<Value>)
    ensures
        list@ == Seq::<Value>::empty(),
{
    let list: Vec<Value> = Vec::new();
    assert(list@ =~= Seq::empty());
    list
}

/// A list of one value.
pub fn one(value: Value) -> (list: Vec<Value>)
    ensures
        list@ == seq![value],
{
    let mut list: Vec<Value> = Vec::new();
    list.push(value);
    assert(list@ =~= seq![value]);
    list
}

/// A list of two values.
pub fn two(first: Value, second: Value) -> (list: Vec<Value>)
    ensures
        list@ == seq![first, second],
{
    let mut list: Vec<Value> = Vec::new();
    list.push(first);
    list.push(second);
    assert(list@ =~= seq![first, second]);
    list
}

} // verus!
