//! Writing a program out, for reading.

use vstd::prelude::*;
use vstd::string::StringExecFns;

use crate::inst::{
    case_views, values_within, Allocation, BinaryOp, Const, ConstView, Inst, InstKind,
    InstKindView, InstView, Overflow, Target, TargetView, Terminator, TerminatorView, UnaryOp,
    Value,
};
use crate::program::{
    views, BlockView, Enum, Field, FieldView, FuncId, Function, FunctionView, Implementation,
    ImplementationView, Interface, Method, MethodView, Nominal, NominalView, Program,
    ProgramView, Shape, ShapeView, Struct, Variant, VariantView,
};
use crate::text::{
    concat, concatenated, decimal, join, joined, names, number, quote_char, quote_str, quoted_char,
    quoted_str,
};
use crate::ty::{arguments_text, spellings, ty_texts, tys, Ty, TyView, TypeId};

verus! {

/// How a value is called.
pub open spec fn name_text(value: Value) -> Seq<char> {
    "v"@ + decimal(value.0 as nat)
}

/// How each of several values is called.
pub open spec fn name_texts(values: Seq<Value>) -> Seq<Seq<char>> {
    Seq::new(values.len(), |i: int| name_text(values[i]))
}

/// Several values, with commas between them.
pub open spec fn list_text(values: Seq<Value>) -> Seq<char> {
    joined(name_texts(values), ", "@)
}

/// Each entry of a map.
pub open spec fn pair_texts(pairs: Seq<(Value, Value)>) -> Seq<Seq<char>> {
    Seq::new(pairs.len(), |i: int| name_text(pairs[i].0) + " = "@ + name_text(pairs[i].1))
}

/// The message of an assertion, where it has one.
pub open spec fn message_text(message: Option<Value>) -> Seq<char> {
    match message {
        Some(value) => " "@ + name_text(value),
        None => Seq::empty(),
    }
}

/// The interface a dynamic value is used through, where there is one.
pub open spec fn table_text(interface: Option<TypeId>) -> Seq<char> {
    match interface {
        Some(id) => "type"@ + decimal(id.0 as nat) + " "@,
        None => Seq::empty(),
    }
}

/// How a range that holds its end is marked.
pub open spec fn inclusive_text(inclusive: bool) -> Seq<char> {
    if inclusive {
        " inclusive"@
    } else {
        ""@
    }
}

/// How an address that can be written through is marked.
pub open spec fn mutable_text(mutable: bool) -> Seq<char> {
    if mutable {
        "mut "@
    } else {
        ""@
    }
}

/// How a place that is not the managed heap is marked.
pub open spec fn allocation_text(place: Allocation) -> Seq<char> {
    match place {
        Allocation::Managed => ""@,
        Allocation::Stack => "stack "@,
        Allocation::Registers => "registers "@,
    }
}

/// How what arithmetic does outside its range is called.
pub open spec fn overflow_text(mode: Overflow) -> Seq<char> {
    match mode {
        Overflow::Wrap => "Wrap"@,
        Overflow::Saturate => "Saturate"@,
        Overflow::Check => "Check"@,
    }
}

/// How a unary operator is called.
pub open spec fn unary_text(op: UnaryOp) -> Seq<char> {
    match op {
        UnaryOp::Negate => "neg"@,
        UnaryOp::Not => "not"@,
        UnaryOp::BitNot => "bitnot"@,
    }
}

/// How a binary operator is called.
pub open spec fn binary_text(op: BinaryOp) -> Seq<char> {
    match op {
        BinaryOp::Add => "add"@,
        BinaryOp::Subtract => "sub"@,
        BinaryOp::Multiply => "mul"@,
        BinaryOp::Divide => "div"@,
        BinaryOp::IntegerDivide => "idiv"@,
        BinaryOp::Remainder => "rem"@,
        BinaryOp::Power => "pow"@,
        BinaryOp::Concat => "concat"@,
        BinaryOp::Equal => "eq"@,
        BinaryOp::NotEqual => "ne"@,
        BinaryOp::Less => "lt"@,
        BinaryOp::LessEqual => "le"@,
        BinaryOp::Greater => "gt"@,
        BinaryOp::GreaterEqual => "ge"@,
        BinaryOp::BitAnd => "and"@,
        BinaryOp::BitOr => "or"@,
        BinaryOp::BitXor => "xor"@,
        BinaryOp::ShiftLeft => "shl"@,
        BinaryOp::ShiftRight => "shr"@,
    }
}

/// Each of several bytes in decimal.
pub open spec fn byte_texts(bytes: Seq<u8>) -> Seq<Seq<char>> {
    Seq::new(bytes.len(), |i: int| decimal(bytes[i] as nat))
}

/// How a literal is written.
pub open spec fn constant_text(value: ConstView) -> Seq<char> {
    match value {
        ConstView::Unit => "()"@,
        ConstView::Nil => "nil"@,
        ConstView::Bool(held) => if held {
            "true"@
        } else {
            "false"@
        },
        ConstView::Int(held) => decimal(held as nat),
        ConstView::Float { text, .. } => text,
        ConstView::Char(held) => quoted_char(held),
        ConstView::Str(held) => quoted_str(held),
        ConstView::Bytes(held) => "["@ + joined(byte_texts(held), ", "@) + "]"@,
    }
}

/// How what an instruction does is written.
pub open spec fn kind_text(kind: InstKindView) -> Seq<char> {
    match kind {
        InstKindView::Const(held) => "const "@ + constant_text(held),
        InstKindView::Unary { op, operand } => unary_text(op) + " "@ + name_text(operand),
        InstKindView::Binary { op, left, right } => binary_text(op) + " "@ + name_text(left) + " "@ + name_text(right),
        InstKindView::HashValue { value } => "hash "@ + name_text(value),
        InstKindView::HashCombine { state, value } => "hash combine "@ + name_text(state) + " "@ + name_text(value),
        InstKindView::DisplayValue { value } => "display "@ + name_text(value),
        InstKindView::Print { value } => "print "@ + name_text(value),
        InstKindView::MakeError { message } => "error "@ + name_text(message),
        InstKindView::Assert { condition, message } => "assert "@ + name_text(condition) + message_text(message),
        InstKindView::Panic { message } => "panic "@ + name_text(message),
        InstKindView::Convert { value, to } => "convert "@ + name_text(value) + " to "@ + to.text(),
        InstKindView::Reinterpret { value, to } => "reinterpret "@ + name_text(value) + " as "@ + to.text(),
        InstKindView::IsType { value, ty } => "is "@ + name_text(value) + " "@ + ty.text(),
        InstKindView::Call { callee, type_args, args } => "call func"@ + decimal(callee.0 as nat) + arguments_text(ty_texts(type_args)) + "("@ + list_text(args) + ")"@,
        InstKindView::CallIndirect { callee, args } => "call "@ + name_text(callee) + "("@ + list_text(args) + ")"@,
        InstKindView::CallVirtual { method, receiver, args } => "call virtual type"@ + decimal(method.interface.0 as nat) + "#"@ + decimal(method.slot as nat) + " "@ + name_text(receiver) + "("@ + list_text(args) + ")"@,
        InstKindView::MakeDyn { interface, value } => "dyn "@ + table_text(interface) + name_text(value),
        InstKindView::DynValue { value } => "dyn value "@ + name_text(value),
        InstKindView::MakeClosure { func, captures } => "closure func"@ + decimal(func.0 as nat) + "["@ + list_text(captures) + "]"@,
        InstKindView::CopyValue { value, allocation } => allocation_text(allocation) + "copy "@ + name_text(value),
        InstKindView::Freeze { value } => "freeze "@ + name_text(value),
        InstKindView::MakeStruct { ty, fields, allocation } => allocation_text(allocation) + "struct "@ + ty.text() + " { "@ + list_text(fields) + " }"@,
        InstKindView::GetField { object, field } => "field "@ + name_text(object) + "."@ + decimal(field as nat),
        InstKindView::SetField { object, field, value } => "set "@ + name_text(object) + "."@ + decimal(field as nat) + " = "@ + name_text(value),
        InstKindView::MakeEnum { ty, variant, payload } => "enum "@ + ty.text() + "#"@ + decimal(variant as nat) + "("@ + list_text(payload) + ")"@,
        InstKindView::GetTag { value } => "tag "@ + name_text(value),
        InstKindView::GetPayload { value, variant, field } => "payload "@ + name_text(value) + "#"@ + decimal(variant as nat) + "."@ + decimal(field as nat),
        InstKindView::MakeTuple(held) => "tuple ("@ + list_text(held) + ")"@,
        InstKindView::GetElement { tuple, index } => "element "@ + name_text(tuple) + "."@ + decimal(index as nat),
        InstKindView::MakeList { element, values } => "list<"@ + element.text() + "> ["@ + list_text(values) + "]"@,
        InstKindView::MakeMap { key, value, entries } => "map<"@ + key.text() + ", "@ + value.text() + "> { "@ + joined(pair_texts(entries), ", "@) + " }"@,
        InstKindView::MakeSet { element, values } => "set<"@ + element.text() + "> { "@ + list_text(values) + " }"@,
        InstKindView::ListPush { receiver, value } => "push "@ + name_text(receiver) + " <- "@ + name_text(value),
        InstKindView::ListPop { receiver } => "pop "@ + name_text(receiver),
        InstKindView::ListInsert { receiver, index, value } => "insert "@ + name_text(receiver) + "["@ + name_text(index) + "] <- "@ + name_text(value),
        InstKindView::ListRemoveAt { receiver, index } => "remove "@ + name_text(receiver) + "["@ + name_text(index) + "]"@,
        InstKindView::SetInsert { receiver, value } => "insert "@ + name_text(receiver) + " <- "@ + name_text(value),
        InstKindView::Clear { receiver } => "clear "@ + name_text(receiver),
        InstKindView::MapRemove { receiver, key } => "remove "@ + name_text(receiver) + " "@ + name_text(key),
        InstKindView::SetRemove { receiver, value } => "remove "@ + name_text(receiver) + " "@ + name_text(value),
        InstKindView::Contains { receiver, value } => "contains "@ + name_text(receiver) + " "@ + name_text(value),
        InstKindView::MakeSlice { receiver, range, inclusive } => "slice "@ + name_text(receiver) + " "@ + name_text(range) + inclusive_text(inclusive),
        InstKindView::MakeCheckedSlice { receiver, range, inclusive } => "slice checked "@ + name_text(receiver) + " "@ + name_text(range) + inclusive_text(inclusive),
        InstKindView::KeepAlive { value } => "keep alive "@ + name_text(value),
        InstKindView::ReleaseSlice { value } => "release slice "@ + name_text(value),
        InstKindView::Overflowing { mode, op, left, right } => overflow_text(mode) + " "@ + binary_text(op) + " "@ + name_text(left) + " "@ + name_text(right),
        InstKindView::Length { receiver } => "length "@ + name_text(receiver),
        InstKindView::Buckets { receiver } => "buckets "@ + name_text(receiver),
        InstKindView::Occupied { receiver, index } => "occupied "@ + name_text(receiver) + "["@ + name_text(index) + "]"@,
        InstKindView::EntryKey { receiver, index } => "key "@ + name_text(receiver) + "["@ + name_text(index) + "]"@,
        InstKindView::EntryValue { receiver, index } => "value "@ + name_text(receiver) + "["@ + name_text(index) + "]"@,
        InstKindView::GetIndex { receiver, index } => "index "@ + name_text(receiver) + "["@ + name_text(index) + "]"@,
        InstKindView::GetUncheckedIndex { receiver, index } => "index unchecked "@ + name_text(receiver) + "["@ + name_text(index) + "]"@,
        InstKindView::GetCheckedIndex { receiver, index } => "get "@ + name_text(receiver) + "["@ + name_text(index) + "]"@,
        InstKindView::SetIndex { receiver, index, value } => "set "@ + name_text(receiver) + "["@ + name_text(index) + "] = "@ + name_text(value),
        InstKindView::SetUncheckedIndex { receiver, index, value } => "set unchecked "@ + name_text(receiver) + "["@ + name_text(index) + "] = "@ + name_text(value),
        InstKindView::MakeSome { value } => "some "@ + name_text(value),
        InstKindView::IsSome { value } => "is some "@ + name_text(value),
        InstKindView::Unwrap { value } => "unwrap "@ + name_text(value),
        InstKindView::AddressOf { mutable, slot } => "address "@ + mutable_text(mutable) + "slot"@ + decimal(slot.0 as nat),
        InstKindView::FieldAddress { mutable, object, field } => "address "@ + mutable_text(mutable) + name_text(object) + "."@ + decimal(field as nat),
        InstKindView::Offset { pointer, count } => "offset "@ + name_text(pointer) + " by "@ + name_text(count),
        InstKindView::Load { pointer } => "load "@ + name_text(pointer),
        InstKindView::Store { pointer, value } => "store "@ + name_text(pointer) + " = "@ + name_text(value),
        InstKindView::SlotGet { slot } => "get slot"@ + decimal(slot.0 as nat),
        InstKindView::SlotSet { slot, value } => "set slot"@ + decimal(slot.0 as nat) + " = "@ + name_text(value),
        InstKindView::Await { task } => "await "@ + name_text(task),
        InstKindView::CancellationPoint => "cancellation point"@,
        InstKindView::Cancel { task, error } => "cancel "@ + name_text(task) + " "@ + name_text(error),
    }
}

/// How an instruction is written: what it produces and the type of that, and
/// what it does.
pub open spec fn instruction_text(inst: InstView, function: FunctionView) -> Seq<char> {
    match inst.result {
        Some(result) => name_text(result) + ": "@ + function.type_of(result).text() + " = "@
            + kind_text(inst.kind),
        None => kind_text(inst.kind),
    }
}

/// How a jump is written.
pub open spec fn target_text(target: TargetView) -> Seq<char> {
    if target.args.len() == 0 {
        "block"@ + decimal(target.block.0 as nat)
    } else {
        "block"@ + decimal(target.block.0 as nat) + "("@ + list_text(target.args) + ")"@
    }
}

/// How each case of a switch is written.
pub open spec fn case_texts(cases: Seq<(u64, TargetView)>) -> Seq<Seq<char>> {
    Seq::new(cases.len(), |i: int| decimal(cases[i].0 as nat) + " => "@ + target_text(cases[i].1))
}

/// How what ends a block is written.
pub open spec fn terminator_text(term: TerminatorView) -> Seq<char> {
    match term {
        TerminatorView::Jump(to) => "jump "@ + target_text(to),
        TerminatorView::Branch { condition, then, otherwise } => "branch "@ + name_text(condition)
            + " "@ + target_text(then) + " else "@ + target_text(otherwise),
        TerminatorView::Switch { value, cases, default } => "switch "@ + name_text(value) + " ["@
            + joined(case_texts(cases), ", "@) + "] else "@ + target_text(default),
        TerminatorView::Return(value) => "return "@ + name_text(value),
        TerminatorView::Trap(trap) => "trap "@ + trap.text(),
    }
}

/// How each parameter of a block is written.
pub open spec fn param_texts(params: Seq<Value>, function: FunctionView) -> Seq<Seq<char>> {
    Seq::new(
        params.len(),
        |i: int| name_text(params[i]) + ": "@ + function.type_of(params[i]).text(),
    )
}

/// Each instruction on a line of its own.
pub open spec fn instruction_lines(
    insts: Seq<InstView>,
    function: FunctionView,
) -> Seq<Seq<char>> {
    Seq::new(insts.len(), |i: int| "    "@ + instruction_text(insts[i], function) + "\n"@)
}

/// How a block is written.
pub open spec fn block_text(function: FunctionView, at: int) -> Seq<char> {
    let block = function.blocks[at];
    let head = if block.params.len() == 0 {
        "  block"@ + decimal(at as nat) + ":\n"@
    } else {
        "  block"@ + decimal(at as nat) + "("@ + joined(
            param_texts(block.params, function),
            ", "@,
        ) + "):\n"@
    };
    let ending = match block.term {
        Some(term) => "    "@ + terminator_text(term) + "\n"@,
        None => "    <unterminated>\n"@,
    };
    head + concatenated(instruction_lines(block.insts, function)) + ending
}

/// How each slot is written.
pub open spec fn slot_lines(slots: Seq<TyView>) -> Seq<Seq<char>> {
    Seq::new(
        slots.len(),
        |i: int| "    slot"@ + decimal(i as nat) + ": "@ + slots[i].text() + "\n"@,
    )
}

/// How a function is written: its signature, its slots, and its blocks. What
/// another language defines has a signature alone.
pub open spec fn function_text(function: FunctionView) -> Seq<char> {
    let head = (if function.external is Some {
        "extern "@
    } else {
        ""@
    }) + (if function.asynchronous {
        "async "@
    } else {
        ""@
    }) + "function "@ + function.name + arguments_text(function.type_params) + "("@ + joined(
        ty_texts(function.params),
        ", "@,
    ) + ") -> "@ + function.result.text() + "\n"@;
    if function.external is Some {
        head
    } else {
        head + concatenated(slot_lines(function.slots)) + concatenated(
            Seq::new(function.blocks.len(), |i: int| block_text(function, i)),
        )
    }
}

/// How a field is written.
pub open spec fn field_text(field: FieldView) -> Seq<char> {
    field.name + ": "@ + field.ty.text()
}

/// How each field is written.
pub open spec fn field_texts(fields: Seq<FieldView>) -> Seq<Seq<char>> {
    Seq::new(fields.len(), |i: int| field_text(fields[i]))
}

/// Each field on a line of its own.
pub open spec fn field_lines(fields: Seq<FieldView>) -> Seq<Seq<char>> {
    Seq::new(fields.len(), |i: int| "    "@ + field_text(fields[i]) + "\n"@)
}

/// Each variant on a line of its own, after its tag.
pub open spec fn variant_lines(variants: Seq<VariantView>) -> Seq<Seq<char>> {
    Seq::new(
        variants.len(),
        |i: int|
            "    "@ + decimal(i as nat) + " "@ + variants[i].name + "("@ + joined(
                field_texts(variants[i].fields),
                ", "@,
            ) + ")\n"@,
    )
}

/// Each method on a line of its own, after its slot.
pub open spec fn method_lines(methods: Seq<MethodView>) -> Seq<Seq<char>> {
    Seq::new(
        methods.len(),
        |i: int|
            "    "@ + decimal(i as nat) + " "@ + methods[i].name + "("@ + joined(
                ty_texts(methods[i].params),
                ", "@,
            ) + ") -> "@ + methods[i].result.text() + "\n"@,
    )
}

/// How each function of a method table is written.
pub open spec fn func_texts(methods: Seq<FuncId>) -> Seq<Seq<char>> {
    Seq::new(methods.len(), |i: int| "func"@ + decimal(methods[i].0 as nat))
}

/// Each implementation on a line of its own.
pub open spec fn implementation_lines(implementors: Seq<ImplementationView>) -> Seq<Seq<char>> {
    Seq::new(
        implementors.len(),
        |i: int|
            "    impl "@ + implementors[i].ty.text() + " ["@ + joined(
                func_texts(implementors[i].methods),
                ", "@,
            ) + "]\n"@,
    )
}

/// How a declared type is written.
pub open spec fn nominal_text(nominal: NominalView) -> Seq<char> {
    let params = arguments_text(nominal.type_params);
    match nominal.shape {
        ShapeView::Struct(structure) => (if structure.repr_c {
            "repr(C) "@
        } else {
            ""@
        }) + (if structure.reference {
            "ref struct "@
        } else {
            "struct "@
        }) + nominal.name + params + "\n"@ + concatenated(field_lines(structure.fields)),
        ShapeView::Enum(enumeration) => "enum "@ + nominal.name + params + "\n"@ + concatenated(
            variant_lines(enumeration.variants),
        ),
        ShapeView::Interface(interface) => "interface "@ + nominal.name + params + "\n"@
            + concatenated(method_lines(interface.methods)) + concatenated(
            implementation_lines(interface.implementors),
        ),
    }
}

/// Each type, and an empty line after it.
pub open spec fn type_texts(types: Seq<NominalView>) -> Seq<Seq<char>> {
    Seq::new(types.len(), |i: int| nominal_text(types[i]) + "\n"@)
}

/// Each function, and an empty line after it. The one the program starts at is
/// marked.
pub open spec fn function_texts(program: ProgramView) -> Seq<Seq<char>> {
    Seq::new(
        program.functions.len(),
        |i: int|
            (if program.entry matches Some(entry) && entry.0 == i {
                "entry\n"@
            } else {
                ""@
            }) + function_text(program.functions[i]) + "\n"@,
    )
}

/// How a whole program is written: its types, then its functions.
pub open spec fn program_text(program: ProgramView) -> Seq<char> {
    concatenated(type_texts(program.types)) + concatenated(function_texts(program))
}

fn name(value: Value) -> (out: String)
    ensures
        out@ == name_text(value),
{
    let mut out = "v".to_owned();
    out.append(number(value.0 as u64).as_str());
    out
}

fn list(values: &Vec<Value>) -> (out: String)
    ensures
        out@ == list_text(values@),
{
    let mut parts: Vec<String> = Vec::new();
    let mut i: usize = 0;
    while i < values.len()
        invariant
            i <= values.len(),
            parts@.len() == i,
            forall|j: int| 0 <= j < i ==> (#[trigger] parts@[j])@ == name_text(values@[j]),
        decreases values.len() - i,
    {
        parts.push(name(values[i]));
        i += 1;
    }
    assert(names(parts@) =~= name_texts(values@));
    join(&parts, ", ")
}

fn pairs(held: &Vec<(Value, Value)>) -> (parts: Vec<String>)
    ensures
        names(parts@) == pair_texts(held@),
{
    let mut parts: Vec<String> = Vec::new();
    let mut i: usize = 0;
    while i < held.len()
        invariant
            i <= held.len(),
            parts@.len() == i,
            forall|j: int| 0 <= j < i ==> (#[trigger] parts@[j])@ == pair_texts(held@)[j],
        decreases held.len() - i,
    {
        let mut part = name(held[i].0);
        part.append(" = ");
        part.append(name(held[i].1).as_str());
        parts.push(part);
        i += 1;
    }
    assert(names(parts@) =~= pair_texts(held@));
    parts
}

fn message_suffix(message: &Option<Value>) -> (out: String)
    ensures
        out@ == message_text(*message),
{
    match message {
        Some(value) => {
            let mut out = " ".to_owned();
            out.append(name(*value).as_str());
            out
        },
        None => String::new(),
    }
}

fn table_prefix(interface: &Option<TypeId>) -> (out: String)
    ensures
        out@ == table_text(*interface),
{
    match interface {
        Some(id) => {
            let mut out = "type".to_owned();
            out.append(number(id.0 as u64).as_str());
            out.append(" ");
            out
        },
        None => String::new(),
    }
}

fn type_arguments(args: &Vec<Ty>) -> (out: String)
    ensures
        out@ == arguments_text(ty_texts(tys(args@))),
{
    bracketed(&spellings(args))
}

fn bracketed(args: &Vec<String>) -> (out: String)
    ensures
        out@ == arguments_text(names(args@)),
{
    if args.len() == 0 {
        return String::new();
    }
    let mut out = "<".to_owned();
    out.append(join(args, ", ").as_str());
    out.append(">");
    out
}

fn inclusive_suffix(inclusive: bool) -> (spelled: &'static str)
    ensures
        spelled@ == inclusive_text(inclusive),
{
    if inclusive {
        " inclusive"
    } else {
        ""
    }
}

fn mutable_prefix(mutable: bool) -> (spelled: &'static str)
    ensures
        spelled@ == mutable_text(mutable),
{
    if mutable {
        "mut "
    } else {
        ""
    }
}

fn allocation_prefix(place: Allocation) -> (spelled: &'static str)
    ensures
        spelled@ == allocation_text(place),
{
    match place {
        Allocation::Managed => "",
        Allocation::Stack => "stack ",
        Allocation::Registers => "registers ",
    }
}

fn overflow(mode: Overflow) -> (spelled: &'static str)
    ensures
        spelled@ == overflow_text(mode),
{
    match mode {
        Overflow::Wrap => "Wrap",
        Overflow::Saturate => "Saturate",
        Overflow::Check => "Check",
    }
}

fn unary(op: UnaryOp) -> (spelled: &'static str)
    ensures
        spelled@ == unary_text(op),
{
    match op {
        UnaryOp::Negate => "neg",
        UnaryOp::Not => "not",
        UnaryOp::BitNot => "bitnot",
    }
}

fn binary(op: BinaryOp) -> (spelled: &'static str)
    ensures
        spelled@ == binary_text(op),
{
    match op {
        BinaryOp::Add => "add",
        BinaryOp::Subtract => "sub",
        BinaryOp::Multiply => "mul",
        BinaryOp::Divide => "div",
        BinaryOp::IntegerDivide => "idiv",
        BinaryOp::Remainder => "rem",
        BinaryOp::Power => "pow",
        BinaryOp::Concat => "concat",
        BinaryOp::Equal => "eq",
        BinaryOp::NotEqual => "ne",
        BinaryOp::Less => "lt",
        BinaryOp::LessEqual => "le",
        BinaryOp::Greater => "gt",
        BinaryOp::GreaterEqual => "ge",
        BinaryOp::BitAnd => "and",
        BinaryOp::BitOr => "or",
        BinaryOp::BitXor => "xor",
        BinaryOp::ShiftLeft => "shl",
        BinaryOp::ShiftRight => "shr",
    }
}

/// How a literal is written.
pub fn constant(value: &Const) -> (out: String)
    ensures
        out@ == constant_text(value@),
{
    match value {
        Const::Unit => "()".to_owned(),
        Const::Nil => "nil".to_owned(),
        Const::Bool(held) => if *held {
            "true".to_owned()
        } else {
            "false".to_owned()
        },
        Const::Int(held) => number(*held),
        Const::Float(held) => held.text.clone(),
        Const::Char(held) => quote_char(*held),
        Const::Str(held) => quote_str(held.as_str()),
        Const::Bytes(held) => {
            let mut parts: Vec<String> = Vec::new();
            let mut i: usize = 0;
            while i < held.len()
                invariant
                    i <= held.len(),
                    parts@.len() == i,
                    forall|j: int| 0 <= j < i ==> (#[trigger] parts@[j])@ == byte_texts(held@)[j],
                decreases held.len() - i,
            {
                parts.push(number(held[i] as u64));
                i += 1;
            }
            assert(names(parts@) =~= byte_texts(held@));
            let mut out = "[".to_owned();
            out.append(join(&parts, ", ").as_str());
            out.append("]");
            out
        },
    }
}

#[verifier::rlimit(40)]
fn kind_to_text(kind: &InstKind) -> (out: String)
    ensures
        out@ == kind_text(kind@),
{
    let mut out = String::new();
    match kind {
        InstKind::Const(held) => {
            out.append("const ");
            out.append(constant(held).as_str());
        },
        InstKind::Unary { op, operand } => {
            out.append(unary(*op));
            out.append(" ");
            out.append(name(*operand).as_str());
        },
        InstKind::Binary { op, left, right } => {
            out.append(binary(*op));
            out.append(" ");
            out.append(name(*left).as_str());
            out.append(" ");
            out.append(name(*right).as_str());
        },
        InstKind::HashValue { value } => {
            out.append("hash ");
            out.append(name(*value).as_str());
        },
        InstKind::HashCombine { state, value } => {
            out.append("hash combine ");
            out.append(name(*state).as_str());
            out.append(" ");
            out.append(name(*value).as_str());
        },
        InstKind::DisplayValue { value } => {
            out.append("display ");
            out.append(name(*value).as_str());
        },
        InstKind::Print { value } => {
            out.append("print ");
            out.append(name(*value).as_str());
        },
        InstKind::MakeError { message } => {
            out.append("error ");
            out.append(name(*message).as_str());
        },
        InstKind::Assert { condition, message } => {
            out.append("assert ");
            out.append(name(*condition).as_str());
            out.append(message_suffix(message).as_str());
        },
        InstKind::Panic { message } => {
            out.append("panic ");
            out.append(name(*message).as_str());
        },
        InstKind::Convert { value, to } => {
            out.append("convert ");
            out.append(name(*value).as_str());
            out.append(" to ");
            out.append(to.to_text().as_str());
        },
        InstKind::Reinterpret { value, to } => {
            out.append("reinterpret ");
            out.append(name(*value).as_str());
            out.append(" as ");
            out.append(to.to_text().as_str());
        },
        InstKind::IsType { value, ty } => {
            out.append("is ");
            out.append(name(*value).as_str());
            out.append(" ");
            out.append(ty.to_text().as_str());
        },
        InstKind::Call { callee, type_args, args } => {
            out.append("call func");
            out.append(number(callee.0 as u64).as_str());
            out.append(type_arguments(type_args).as_str());
            out.append("(");
            out.append(list(args).as_str());
            out.append(")");
        },
        InstKind::CallIndirect { callee, args } => {
            out.append("call ");
            out.append(name(*callee).as_str());
            out.append("(");
            out.append(list(args).as_str());
            out.append(")");
        },
        InstKind::CallVirtual { method, receiver, args } => {
            out.append("call virtual type");
            out.append(number(method.interface.0 as u64).as_str());
            out.append("#");
            out.append(number(method.slot as u64).as_str());
            out.append(" ");
            out.append(name(*receiver).as_str());
            out.append("(");
            out.append(list(args).as_str());
            out.append(")");
        },
        InstKind::MakeDyn { interface, value } => {
            out.append("dyn ");
            out.append(table_prefix(interface).as_str());
            out.append(name(*value).as_str());
        },
        InstKind::DynValue { value } => {
            out.append("dyn value ");
            out.append(name(*value).as_str());
        },
        InstKind::MakeClosure { func, captures } => {
            out.append("closure func");
            out.append(number(func.0 as u64).as_str());
            out.append("[");
            out.append(list(captures).as_str());
            out.append("]");
        },
        InstKind::CopyValue { value, allocation } => {
            out.append(allocation_prefix(*allocation));
            out.append("copy ");
            out.append(name(*value).as_str());
        },
        InstKind::Freeze { value } => {
            out.append("freeze ");
            out.append(name(*value).as_str());
        },
        InstKind::MakeStruct { ty, fields, allocation } => {
            out.append(allocation_prefix(*allocation));
            out.append("struct ");
            out.append(ty.to_text().as_str());
            out.append(" { ");
            out.append(list(fields).as_str());
            out.append(" }");
        },
        InstKind::GetField { object, field } => {
            out.append("field ");
            out.append(name(*object).as_str());
            out.append(".");
            out.append(number(*field as u64).as_str());
        },
        InstKind::SetField { object, field, value } => {
            out.append("set ");
            out.append(name(*object).as_str());
            out.append(".");
            out.append(number(*field as u64).as_str());
            out.append(" = ");
            out.append(name(*value).as_str());
        },
        InstKind::MakeEnum { ty, variant, payload } => {
            out.append("enum ");
            out.append(ty.to_text().as_str());
            out.append("#");
            out.append(number(*variant as u64).as_str());
            out.append("(");
            out.append(list(payload).as_str());
            out.append(")");
        },
        InstKind::GetTag { value } => {
            out.append("tag ");
            out.append(name(*value).as_str());
        },
        InstKind::GetPayload { value, variant, field } => {
            out.append("payload ");
            out.append(name(*value).as_str());
            out.append("#");
            out.append(number(*variant as u64).as_str());
            out.append(".");
            out.append(number(*field as u64).as_str());
        },
        InstKind::MakeTuple(held) => {
            out.append("tuple (");
            out.append(list(held).as_str());
            out.append(")");
        },
        InstKind::GetElement { tuple, index } => {
            out.append("element ");
            out.append(name(*tuple).as_str());
            out.append(".");
            out.append(number(*index as u64).as_str());
        },
        InstKind::MakeList { element, values } => {
            out.append("list<");
            out.append(element.to_text().as_str());
            out.append("> [");
            out.append(list(values).as_str());
            out.append("]");
        },
        InstKind::MakeMap { key, value, entries } => {
            out.append("map<");
            out.append(key.to_text().as_str());
            out.append(", ");
            out.append(value.to_text().as_str());
            out.append("> { ");
            out.append(join(&pairs(entries), ", ").as_str());
            out.append(" }");
        },
        InstKind::MakeSet { element, values } => {
            out.append("set<");
            out.append(element.to_text().as_str());
            out.append("> { ");
            out.append(list(values).as_str());
            out.append(" }");
        },
        InstKind::ListPush { receiver, value } => {
            out.append("push ");
            out.append(name(*receiver).as_str());
            out.append(" <- ");
            out.append(name(*value).as_str());
        },
        InstKind::ListPop { receiver } => {
            out.append("pop ");
            out.append(name(*receiver).as_str());
        },
        InstKind::ListInsert { receiver, index, value } => {
            out.append("insert ");
            out.append(name(*receiver).as_str());
            out.append("[");
            out.append(name(*index).as_str());
            out.append("] <- ");
            out.append(name(*value).as_str());
        },
        InstKind::ListRemoveAt { receiver, index } => {
            out.append("remove ");
            out.append(name(*receiver).as_str());
            out.append("[");
            out.append(name(*index).as_str());
            out.append("]");
        },
        InstKind::SetInsert { receiver, value } => {
            out.append("insert ");
            out.append(name(*receiver).as_str());
            out.append(" <- ");
            out.append(name(*value).as_str());
        },
        InstKind::Clear { receiver } => {
            out.append("clear ");
            out.append(name(*receiver).as_str());
        },
        InstKind::MapRemove { receiver, key } => {
            out.append("remove ");
            out.append(name(*receiver).as_str());
            out.append(" ");
            out.append(name(*key).as_str());
        },
        InstKind::SetRemove { receiver, value } => {
            out.append("remove ");
            out.append(name(*receiver).as_str());
            out.append(" ");
            out.append(name(*value).as_str());
        },
        InstKind::Contains { receiver, value } => {
            out.append("contains ");
            out.append(name(*receiver).as_str());
            out.append(" ");
            out.append(name(*value).as_str());
        },
        InstKind::MakeSlice { receiver, range, inclusive } => {
            out.append("slice ");
            out.append(name(*receiver).as_str());
            out.append(" ");
            out.append(name(*range).as_str());
            out.append(inclusive_suffix(*inclusive));
        },
        InstKind::MakeCheckedSlice { receiver, range, inclusive } => {
            out.append("slice checked ");
            out.append(name(*receiver).as_str());
            out.append(" ");
            out.append(name(*range).as_str());
            out.append(inclusive_suffix(*inclusive));
        },
        InstKind::KeepAlive { value } => {
            out.append("keep alive ");
            out.append(name(*value).as_str());
        },
        InstKind::ReleaseSlice { value } => {
            out.append("release slice ");
            out.append(name(*value).as_str());
        },
        InstKind::Overflowing { mode, op, left, right } => {
            out.append(overflow(*mode));
            out.append(" ");
            out.append(binary(*op));
            out.append(" ");
            out.append(name(*left).as_str());
            out.append(" ");
            out.append(name(*right).as_str());
        },
        InstKind::Length { receiver } => {
            out.append("length ");
            out.append(name(*receiver).as_str());
        },
        InstKind::Buckets { receiver } => {
            out.append("buckets ");
            out.append(name(*receiver).as_str());
        },
        InstKind::Occupied { receiver, index } => {
            out.append("occupied ");
            out.append(name(*receiver).as_str());
            out.append("[");
            out.append(name(*index).as_str());
            out.append("]");
        },
        InstKind::EntryKey { receiver, index } => {
            out.append("key ");
            out.append(name(*receiver).as_str());
            out.append("[");
            out.append(name(*index).as_str());
            out.append("]");
        },
        InstKind::EntryValue { receiver, index } => {
            out.append("value ");
            out.append(name(*receiver).as_str());
            out.append("[");
            out.append(name(*index).as_str());
            out.append("]");
        },
        InstKind::GetIndex { receiver, index } => {
            out.append("index ");
            out.append(name(*receiver).as_str());
            out.append("[");
            out.append(name(*index).as_str());
            out.append("]");
        },
        InstKind::GetUncheckedIndex { receiver, index } => {
            out.append("index unchecked ");
            out.append(name(*receiver).as_str());
            out.append("[");
            out.append(name(*index).as_str());
            out.append("]");
        },
        InstKind::GetCheckedIndex { receiver, index } => {
            out.append("get ");
            out.append(name(*receiver).as_str());
            out.append("[");
            out.append(name(*index).as_str());
            out.append("]");
        },
        InstKind::SetIndex { receiver, index, value } => {
            out.append("set ");
            out.append(name(*receiver).as_str());
            out.append("[");
            out.append(name(*index).as_str());
            out.append("] = ");
            out.append(name(*value).as_str());
        },
        InstKind::SetUncheckedIndex { receiver, index, value } => {
            out.append("set unchecked ");
            out.append(name(*receiver).as_str());
            out.append("[");
            out.append(name(*index).as_str());
            out.append("] = ");
            out.append(name(*value).as_str());
        },
        InstKind::MakeSome { value } => {
            out.append("some ");
            out.append(name(*value).as_str());
        },
        InstKind::IsSome { value } => {
            out.append("is some ");
            out.append(name(*value).as_str());
        },
        InstKind::Unwrap { value } => {
            out.append("unwrap ");
            out.append(name(*value).as_str());
        },
        InstKind::AddressOf { mutable, slot } => {
            out.append("address ");
            out.append(mutable_prefix(*mutable));
            out.append("slot");
            out.append(number(slot.0 as u64).as_str());
        },
        InstKind::FieldAddress { mutable, object, field } => {
            out.append("address ");
            out.append(mutable_prefix(*mutable));
            out.append(name(*object).as_str());
            out.append(".");
            out.append(number(*field as u64).as_str());
        },
        InstKind::Offset { pointer, count } => {
            out.append("offset ");
            out.append(name(*pointer).as_str());
            out.append(" by ");
            out.append(name(*count).as_str());
        },
        InstKind::Load { pointer } => {
            out.append("load ");
            out.append(name(*pointer).as_str());
        },
        InstKind::Store { pointer, value } => {
            out.append("store ");
            out.append(name(*pointer).as_str());
            out.append(" = ");
            out.append(name(*value).as_str());
        },
        InstKind::SlotGet { slot } => {
            out.append("get slot");
            out.append(number(slot.0 as u64).as_str());
        },
        InstKind::SlotSet { slot, value } => {
            out.append("set slot");
            out.append(number(slot.0 as u64).as_str());
            out.append(" = ");
            out.append(name(*value).as_str());
        },
        InstKind::Await { task } => {
            out.append("await ");
            out.append(name(*task).as_str());
        },
        InstKind::CancellationPoint => {
            out.append("cancellation point");
        },
        InstKind::Cancel { task, error } => {
            out.append("cancel ");
            out.append(name(*task).as_str());
            out.append(" ");
            out.append(name(*error).as_str());
        },
    }
    out
}

/// Whether what an instruction produces is a value of `function`, whose type is
/// then written beside it.
pub open spec fn result_is_typed(inst: InstView, function: FunctionView) -> bool {
    inst.result matches Some(result) ==> result.0 < function.values.len()
}

/// Whether each value a block of `function` receives or produces is one of its
/// values.
pub open spec fn block_is_typed(block: BlockView, function: FunctionView) -> bool {
    &&& values_within(block.params, function.values.len())
    &&& forall|i: int|
        0 <= i < block.insts.len() ==> result_is_typed(#[trigger] block.insts[i], function)
}

/// Whether the blocks of a function, where they are written, are typed.
pub open spec fn function_is_typed(function: FunctionView) -> bool {
    function.external is None ==> forall|b: int|
        0 <= b < function.blocks.len() ==> block_is_typed(#[trigger] function.blocks[b], function)
}

/// Whether every function of a program is typed.
pub open spec fn program_is_typed(program: ProgramView) -> bool {
    forall|i: int|
        0 <= i < program.functions.len() ==> function_is_typed(#[trigger] program.functions[i])
}

/// Whatever is well formed can be written.
pub proof fn well_formed_is_typed(function: FunctionView)
    requires
        function.well_formed(),
    ensures
        function_is_typed(function),
{
    assert forall|b: int| 0 <= b < function.blocks.len() implies block_is_typed(
        #[trigger] function.blocks[b],
        function,
    ) by {
        assert(function.blocks[b].within(
            function.values.len(),
            function.slots.len(),
            function.blocks.len(),
        ));
        assert forall|i: int| 0 <= i < function.blocks[b].insts.len() implies result_is_typed(
            #[trigger] function.blocks[b].insts[i],
            function,
        ) by {
            assert(function.blocks[b].insts[i].within(
                function.values.len(),
                function.slots.len(),
            ));
        }
    }
}

/// How an instruction of `function` is written.
pub fn instruction(inst: &Inst, function: &Function) -> (out: String)
    requires
        result_is_typed(inst@, function@),
    ensures
        out@ == instruction_text(inst@, function@),
{
    let body = kind_to_text(&inst.kind);
    match inst.result {
        Some(result) => {
            let mut out = name(result);
            out.append(": ");
            out.append(function.type_of(result).to_text().as_str());
            out.append(" = ");
            out.append(body.as_str());
            out
        },
        None => body,
    }
}

fn target(to: &Target) -> (out: String)
    ensures
        out@ == target_text(to@),
{
    let mut out = "block".to_owned();
    out.append(number(to.block.0 as u64).as_str());
    if to.args.len() != 0 {
        out.append("(");
        out.append(list(&to.args).as_str());
        out.append(")");
    }
    out
}

/// How what ends a block is written.
pub fn terminator(term: &Terminator) -> (out: String)
    ensures
        out@ == terminator_text(term@),
{
    match term {
        Terminator::Jump(to) => {
            let mut out = "jump ".to_owned();
            out.append(target(to).as_str());
            out
        },
        Terminator::Branch { condition, then, otherwise } => {
            let mut out = "branch ".to_owned();
            out.append(name(*condition).as_str());
            out.append(" ");
            out.append(target(then).as_str());
            out.append(" else ");
            out.append(target(otherwise).as_str());
            out
        },
        Terminator::Switch { value, cases, default } => {
            let mut arms: Vec<String> = Vec::new();
            let mut i: usize = 0;
            while i < cases.len()
                invariant
                    i <= cases.len(),
                    arms@.len() == i,
                    forall|j: int|
                        0 <= j < i ==> (#[trigger] arms@[j])@ == case_texts(
                            case_views(cases@),
                        )[j],
                decreases cases.len() - i,
            {
                let mut arm = number(cases[i].0);
                arm.append(" => ");
                arm.append(target(&cases[i].1).as_str());
                arms.push(arm);
                i += 1;
            }
            assert(names(arms@) =~= case_texts(case_views(cases@)));
            let mut out = "switch ".to_owned();
            out.append(name(*value).as_str());
            out.append(" [");
            out.append(join(&arms, ", ").as_str());
            out.append("] else ");
            out.append(target(default).as_str());
            out
        },
        Terminator::Return(value) => {
            let mut out = "return ".to_owned();
            out.append(name(*value).as_str());
            out
        },
        Terminator::Trap(trap) => {
            let mut out = "trap ".to_owned();
            out.append(trap.spelling());
            out
        },
    }
}

fn block_params(params: &Vec<Value>, function: &Function) -> (parts: Vec<String>)
    requires
        values_within(params@, function@.values.len()),
    ensures
        names(parts@) == param_texts(params@, function@),
{
    let mut parts: Vec<String> = Vec::new();
    let mut i: usize = 0;
    while i < params.len()
        invariant
            i <= params.len(),
            values_within(params@, function@.values.len()),
            parts@.len() == i,
            forall|j: int| 0 <= j < i ==> (#[trigger] parts@[j])@ == param_texts(params@, function@)[j],
        decreases params.len() - i,
    {
        let mut part = name(params[i]);
        part.append(": ");
        part.append(function.type_of(params[i]).to_text().as_str());
        parts.push(part);
        i += 1;
    }
    assert(names(parts@) =~= param_texts(params@, function@));
    parts
}

fn block_to_text(function: &Function, at: usize) -> (out: String)
    requires
        at < function@.blocks.len(),
        block_is_typed(function@.blocks[at as int], function@),
    ensures
        out@ == block_text(function@, at as int),
{
    let block = &function.blocks[at];
    assert(function@.blocks[at as int] == block@);
    let mut out = "  block".to_owned();
    out.append(number(at as u64).as_str());
    if block.params.len() == 0 {
        out.append(":\n");
    } else {
        out.append("(");
        out.append(join(&block_params(&block.params, function), ", ").as_str());
        out.append("):\n");
    }
    let mut lines: Vec<String> = Vec::new();
    let mut i: usize = 0;
    while i < block.insts.len()
        invariant
            i <= block.insts.len(),
            block_is_typed(block@, function@),
            lines@.len() == i,
            forall|j: int|
                0 <= j < i ==> (#[trigger] lines@[j])@ == instruction_lines(
                    block@.insts,
                    function@,
                )[j],
        decreases block.insts.len() - i,
    {
        assert(result_is_typed(block@.insts[i as int], function@));
        let mut line = "    ".to_owned();
        line.append(instruction(&block.insts[i], function).as_str());
        line.append("\n");
        lines.push(line);
        i += 1;
    }
    assert(names(lines@) =~= instruction_lines(block@.insts, function@));
    out.append(concat(&lines).as_str());
    let ending = match &block.term {
        Some(term) => {
            let mut ending = "    ".to_owned();
            ending.append(terminator(term).as_str());
            ending.append("\n");
            ending
        },
        None => "    <unterminated>\n".to_owned(),
    };
    out.append(ending.as_str());
    out
}

/// One function.
#[must_use]
pub fn function(whole: &Function) -> (out: String)
    requires
        function_is_typed(whole@),
    ensures
        out@ == function_text(whole@),
{
    let mut out = if whole.external.is_some() {
        "extern ".to_owned()
    } else {
        "".to_owned()
    };
    if whole.asynchronous {
        out.append("async ");
    } else {
        out.append("");
    }
    out.append("function ");
    out.append(whole.name.as_str());
    out.append(bracketed(&whole.type_params).as_str());
    out.append("(");
    out.append(join(&spellings(&whole.params), ", ").as_str());
    out.append(") -> ");
    out.append(whole.result.to_text().as_str());
    out.append("\n");
    if whole.external.is_some() {
        return out;
    }
    let mut lines: Vec<String> = Vec::new();
    let mut i: usize = 0;
    while i < whole.slots.len()
        invariant
            i <= whole.slots.len(),
            lines@.len() == i,
            forall|j: int| 0 <= j < i ==> (#[trigger] lines@[j])@ == slot_lines(whole@.slots)[j],
        decreases whole.slots.len() - i,
    {
        let mut line = "    slot".to_owned();
        line.append(number(i as u64).as_str());
        line.append(": ");
        line.append(whole.slots[i].to_text().as_str());
        line.append("\n");
        lines.push(line);
        i += 1;
    }
    assert(names(lines@) =~= slot_lines(whole@.slots));
    out.append(concat(&lines).as_str());
    let mut blocks: Vec<String> = Vec::new();
    let mut i: usize = 0;
    while i < whole.blocks.len()
        invariant
            i <= whole.blocks.len(),
            function_is_typed(whole@),
            whole@.external is None,
            blocks@.len() == i,
            forall|j: int| 0 <= j < i ==> (#[trigger] blocks@[j])@ == block_text(whole@, j),
        decreases whole.blocks.len() - i,
    {
        assert(block_is_typed(whole@.blocks[i as int], whole@));
        blocks.push(block_to_text(whole, i));
        i += 1;
    }
    assert(names(blocks@) =~= Seq::new(
        whole@.blocks.len(),
        |i: int| block_text(whole@, i),
    ));
    out.append(concat(&blocks).as_str());
    out
}

fn field(held: &Field) -> (out: String)
    ensures
        out@ == field_text(held@),
{
    let mut out = held.name.clone();
    out.append(": ");
    out.append(held.ty.to_text().as_str());
    out
}

fn struct_lines(fields: &Vec<Field>) -> (lines: Vec<String>)
    ensures
        names(lines@) == field_lines(views(fields@)),
{
    let mut lines: Vec<String> = Vec::new();
    let mut i: usize = 0;
    while i < fields.len()
        invariant
            i <= fields.len(),
            lines@.len() == i,
            forall|j: int| 0 <= j < i ==> (#[trigger] lines@[j])@ == field_lines(views(fields@))[j],
        decreases fields.len() - i,
    {
        let mut line = "    ".to_owned();
        line.append(field(&fields[i]).as_str());
        line.append("\n");
        lines.push(line);
        i += 1;
    }
    assert(names(lines@) =~= field_lines(views(fields@)));
    lines
}

fn payload(fields: &Vec<Field>) -> (parts: Vec<String>)
    ensures
        names(parts@) == field_texts(views(fields@)),
{
    let mut parts: Vec<String> = Vec::new();
    let mut i: usize = 0;
    while i < fields.len()
        invariant
            i <= fields.len(),
            parts@.len() == i,
            forall|j: int| 0 <= j < i ==> (#[trigger] parts@[j])@ == field_texts(views(fields@))[j],
        decreases fields.len() - i,
    {
        parts.push(field(&fields[i]));
        i += 1;
    }
    assert(names(parts@) =~= field_texts(views(fields@)));
    parts
}

fn enum_lines(variants: &Vec<Variant>) -> (lines: Vec<String>)
    ensures
        names(lines@) == variant_lines(views(variants@)),
{
    let mut lines: Vec<String> = Vec::new();
    let mut i: usize = 0;
    while i < variants.len()
        invariant
            i <= variants.len(),
            lines@.len() == i,
            forall|j: int|
                0 <= j < i ==> (#[trigger] lines@[j])@ == variant_lines(views(variants@))[j],
        decreases variants.len() - i,
    {
        let mut line = "    ".to_owned();
        line.append(number(i as u64).as_str());
        line.append(" ");
        line.append(variants[i].name.as_str());
        line.append("(");
        line.append(join(&payload(&variants[i].fields), ", ").as_str());
        line.append(")\n");
        assert(views(variants@)[i as int] == variants@[i as int]@);
        lines.push(line);
        i += 1;
    }
    assert(names(lines@) =~= variant_lines(views(variants@)));
    lines
}

fn interface_methods(methods: &Vec<Method>) -> (lines: Vec<String>)
    ensures
        names(lines@) == method_lines(views(methods@)),
{
    let mut lines: Vec<String> = Vec::new();
    let mut i: usize = 0;
    while i < methods.len()
        invariant
            i <= methods.len(),
            lines@.len() == i,
            forall|j: int|
                0 <= j < i ==> (#[trigger] lines@[j])@ == method_lines(views(methods@))[j],
        decreases methods.len() - i,
    {
        let mut line = "    ".to_owned();
        line.append(number(i as u64).as_str());
        line.append(" ");
        line.append(methods[i].name.as_str());
        line.append("(");
        line.append(join(&spellings(&methods[i].params), ", ").as_str());
        line.append(") -> ");
        line.append(methods[i].result.to_text().as_str());
        line.append("\n");
        assert(views(methods@)[i as int] == methods@[i as int]@);
        lines.push(line);
        i += 1;
    }
    assert(names(lines@) =~= method_lines(views(methods@)));
    lines
}

fn table(methods: &Vec<FuncId>) -> (parts: Vec<String>)
    ensures
        names(parts@) == func_texts(methods@),
{
    let mut parts: Vec<String> = Vec::new();
    let mut i: usize = 0;
    while i < methods.len()
        invariant
            i <= methods.len(),
            parts@.len() == i,
            forall|j: int| 0 <= j < i ==> (#[trigger] parts@[j])@ == func_texts(methods@)[j],
        decreases methods.len() - i,
    {
        let mut part = "func".to_owned();
        part.append(number(methods[i].0 as u64).as_str());
        parts.push(part);
        i += 1;
    }
    assert(names(parts@) =~= func_texts(methods@));
    parts
}

fn interface_implementors(implementors: &Vec<Implementation>) -> (lines: Vec<String>)
    ensures
        names(lines@) == implementation_lines(views(implementors@)),
{
    let mut lines: Vec<String> = Vec::new();
    let mut i: usize = 0;
    while i < implementors.len()
        invariant
            i <= implementors.len(),
            lines@.len() == i,
            forall|j: int|
                0 <= j < i ==> (#[trigger] lines@[j])@ == implementation_lines(
                    views(implementors@),
                )[j],
        decreases implementors.len() - i,
    {
        let mut line = "    impl ".to_owned();
        line.append(implementors[i].ty.to_text().as_str());
        line.append(" [");
        line.append(join(&table(&implementors[i].methods), ", ").as_str());
        line.append("]\n");
        assert(views(implementors@)[i as int] == implementors@[i as int]@);
        lines.push(line);
        i += 1;
    }
    assert(names(lines@) =~= implementation_lines(views(implementors@)));
    lines
}

/// One declared type.
#[must_use]
pub fn nominal(held: &Nominal) -> (out: String)
    ensures
        out@ == nominal_text(held@),
{
    let params = bracketed(&held.type_params);
    match &held.shape {
        Shape::Struct(structure) => {
            let mut out = if structure.repr_c {
                "repr(C) ".to_owned()
            } else {
                "".to_owned()
            };
            if structure.reference {
                out.append("ref struct ");
            } else {
                out.append("struct ");
            }
            out.append(held.name.as_str());
            out.append(params.as_str());
            out.append("\n");
            out.append(concat(&struct_lines(&structure.fields)).as_str());
            out
        },
        Shape::Enum(enumeration) => {
            let mut out = "enum ".to_owned();
            out.append(held.name.as_str());
            out.append(params.as_str());
            out.append("\n");
            out.append(concat(&enum_lines(&enumeration.variants)).as_str());
            out
        },
        Shape::Interface(interface) => {
            let mut out = "interface ".to_owned();
            out.append(held.name.as_str());
            out.append(params.as_str());
            out.append("\n");
            out.append(concat(&interface_methods(&interface.methods)).as_str());
            out.append(concat(&interface_implementors(&interface.implementors)).as_str());
            out
        },
    }
}

/// The whole program: its types, then its functions.
#[must_use]
pub fn program(whole: &Program) -> (out: String)
    requires
        program_is_typed(whole@),
    ensures
        out@ == program_text(whole@),
{
    let mut types: Vec<String> = Vec::new();
    let mut i: usize = 0;
    while i < whole.types.len()
        invariant
            i <= whole.types.len(),
            types@.len() == i,
            forall|j: int| 0 <= j < i ==> (#[trigger] types@[j])@ == type_texts(whole@.types)[j],
        decreases whole.types.len() - i,
    {
        let mut text = nominal(&whole.types[i]);
        text.append("\n");
        types.push(text);
        i += 1;
    }
    assert(names(types@) =~= type_texts(whole@.types));
    let mut functions: Vec<String> = Vec::new();
    let mut i: usize = 0;
    while i < whole.functions.len()
        invariant
            i <= whole.functions.len(),
            program_is_typed(whole@),
            functions@.len() == i,
            forall|j: int| 0 <= j < i ==> (#[trigger] functions@[j])@ == function_texts(whole@)[j],
        decreases whole.functions.len() - i,
    {
        let starts = match whole.entry {
            Some(entry) => entry.0 as usize == i,
            None => false,
        };
        let mut text = if starts {
            "entry\n".to_owned()
        } else {
            "".to_owned()
        };
        assert(function_is_typed(whole@.functions[i as int]));
        text.append(function(&whole.functions[i]).as_str());
        text.append("\n");
        functions.push(text);
        i += 1;
    }
    assert(names(functions@) =~= function_texts(whole@));
    let mut out = concat(&types);
    out.append(concat(&functions).as_str());
    out
}

} // verus!
