//! Lowering intrinsics and the methods of the builtin types.

use vstd::prelude::*;

use crate::ast::Expr;
use crate::inst::{BinaryOp, Const, ConstView, InstKind, InstKindView, Value, no_values, one, two};
use crate::lower::CompilationMode;
use crate::sema::{BuiltinCall, CollectionMutation, Intrinsic, OverflowMethod};
use crate::span::Span;
use crate::text::{names, same_text};
use crate::ty::{Builtin, IntTy, Ty, TyView};

use super::kinds::{
    args_of, args_of_view, binary_op, binary_op_view, builtin_args, builtin_args_view, builtin_kind,
    builtin_kind_view, function_over, function_over_view, optional, optional_inner,
    optional_inner_view, same_text_view, seq1, thrown_or, thrown_or_view, ty_at, ty_at_view,
};
use super::asked::{looked_up_by, looked_up_by_view, result_error, result_error_view};
use super::deeper::{Deeper, deeper};
use super::given::{Given, or_else, or_else_view};
use super::{Body, BodyView};

verus! {

/// No entries.
pub fn no_entries() -> (entries: Vec<(Value, Value)>)
    ensures
        entries@ == Seq::<(Value, Value)>::empty(),
{
    let entries: Vec<(Value, Value)> = Vec::new();
    assert(entries@ =~= Seq::empty());
    entries
}

/// How many of the first `count` arguments of an assertion are in a position of
/// their own.
pub open spec fn unnamed(args: Seq<Given>, count: nat) -> nat
    decreases count,
{
    if count == 0 {
        0
    } else {
        unnamed(args, (count - 1) as nat) + if names_a_slot(args[count - 1]) {
            0nat
        } else {
            1nat
        }
    }
}

/// Whether an argument names the condition or the message.
pub open spec fn names_a_slot(arg: Given) -> bool {
    match arg.name {
        Some(name) => name@ == "condition"@ || name@ == "message"@,
        None => false,
    }
}

/// Whether an argument is the condition of an assertion: it is named so, or it is
/// the first in a position of its own.
pub open spec fn is_condition(args: Seq<Given>, index: nat) -> bool {
    match args[index as int].name {
        Some(name) => if name@ == "condition"@ {
            true
        } else if name@ == "message"@ {
            false
        } else {
            unnamed(args, index) == 0
        },
        None => unnamed(args, index) == 0,
    }
}

/// Which arguments of an assertion are its condition.
pub open spec fn assertion_slots_view(args: Seq<Given>) -> Seq<bool> {
    Seq::new(args.len(), |i: int| is_condition(args, i as nat))
}

/// Which arguments of an assertion are its condition.
pub fn assertion_slots(args: &Vec<Given>) -> (slots: Vec<bool>)
    ensures
        slots@ == assertion_slots_view(args@),
{
    let mut slots: Vec<bool> = Vec::new();
    let mut any = false;
    let mut i: usize = 0;
    while i < args.len()
        invariant
            i <= args.len(),
            any == (unnamed(args@, i as nat) > 0),
            slots@.len() == i,
            forall|k: int| 0 <= k < i ==> #[trigger] slots@[k] == is_condition(args@, k as nat),
        decreases args.len() - i,
    {
        let condition = match args[i].name {
            Some(name) => same_text(name.as_str(), "condition"),
            None => false,
        };
        let message = match args[i].name {
            Some(name) => same_text(name.as_str(), "message"),
            None => false,
        };
        if condition {
            slots.push(true);
        } else if message {
            slots.push(false);
        } else {
            slots.push(!any);
            any = true;
        }
        i += 1;
    }
    assert(slots@ =~= assertion_slots_view(args@));
    slots
}

/// The last value of the first `count` that fills a slot.
pub open spec fn filling_among(
    slots: Seq<bool>,
    values: Seq<Value>,
    slot: bool,
    count: nat,
) -> Option<Value>
    decreases count,
{
    if count == 0 {
        None
    } else if slots[count - 1] == slot {
        Some(values[count - 1])
    } else {
        filling_among(slots, values, slot, (count - 1) as nat)
    }
}

/// The last value that fills a slot.
pub open spec fn last_filling_view(slots: Seq<bool>, values: Seq<Value>, slot: bool) -> Option<
    Value,
> {
    filling_among(
        slots,
        values,
        slot,
        if slots.len() <= values.len() {
            slots.len()
        } else {
            values.len()
        },
    )
}

/// The last value that fills a slot.
pub fn last_filling(slots: &Vec<bool>, values: &Vec<Value>, slot: bool) -> (found: Option<Value>)
    ensures
        found == last_filling_view(slots@, values@, slot),
{
    let mut found: Option<Value> = None;
    let mut i: usize = 0;
    while i < slots.len() && i < values.len()
        invariant
            i <= slots.len(),
            i <= values.len(),
            found == filling_among(slots@, values@, slot, i as nat),
        decreases slots.len() - i,
    {
        if slots[i] == slot {
            found = Some(values[i]);
        }
        i += 1;
    }
    found
}

/// Whether an argument is the condition.
pub open spec fn slot_at_view(slots: Seq<bool>, index: nat) -> bool {
    index < slots.len() && slots[index as int]
}

/// Whether an argument is the condition.
pub fn slot_at(slots: &Vec<bool>, index: usize) -> (slot: bool)
    ensures
        slot == slot_at_view(slots@, index as nat),
{
    index < slots.len() && slots[index]
}

impl<'a> BodyView<'a> {
    /// A call that reaches no declaration because the language knows it.
    #[verifier::opaque]
    pub open spec fn builtin(
        self,
        builtin: BuiltinCall,
        callee: Expr,
        args: Seq<Given<'a>>,
        span: Span,
        deeper: Deeper<'a>,
    ) -> (BodyView<'a>, Value) {
        let b = self;
        match builtin {
            BuiltinCall::Freeze => {
                let (b, value) = b.expr(callee, None, deeper);
                let (b, ty) = b.recorded(span);
                b.emit(InstKindView::Freeze { value }, ty, span)
            },
            BuiltinCall::CheckedIndex => {
                b.checked_index(callee, args, span, deeper)
            },
            BuiltinCall::Contains => {
                b.contains(callee, args, span, deeper)
            },
            BuiltinCall::OkOr => {
                b.ok_or(callee, args, span, deeper)
            },
            BuiltinCall::MapErr => {
                b.map_err(callee, args, span, deeper)
            },
            BuiltinCall::Mutation(mutation) => {
                b.collection_mutation(mutation, callee, args, span, deeper)
            },
            BuiltinCall::Overflow(method) => {
                b.overflow_method(method, callee, args, span, deeper)
            },
            BuiltinCall::Intrinsic(intrinsic) => {
                b.intrinsic(intrinsic, args, span, deeper)
            },
        }
    }

    /// `read` and `write` are the load and the store themselves, and `add` moves the
    /// pointer.
    #[verifier::opaque]
    pub open spec fn memory_method(
        self,
        callee: Expr,
        name: Seq<char>,
        target: TyView,
        args: Seq<Given<'a>>,
        span: Span,
        deeper: Deeper<'a>,
    ) -> (BodyView<'a>, Value) {
        let b = self;
        let (b, pointer) = b.expr(callee, None, deeper);
        if same_text_view(name, "read"@) && args.len() == 0 {
            b.emit(InstKindView::Load { pointer }, target, span)
        } else {
            if same_text_view(name, "write"@) && args.len() == 1 {
                let (b, value) = b.stored(*args[0].value, Some(target), deeper);
                let b = b.emit_void(InstKindView::Store { pointer, value }, span);
                b.unit(span)
            } else {
                if same_text_view(name, "add"@) && args.len() == 1 {
                    let (b, count) = b.expr(
                        *args[0].value,
                        Some(TyView::Int(IntTy::Isize)),
                        deeper,
                    );
                    let ty = b.type_at(pointer);
                    b.emit(InstKindView::Offset { pointer, count }, ty, span)
                } else {
                    b.missing(span, "a memory method of this shape"@)
                }
            }
        }
    }

    /// A call to something the language provides.
    #[verifier::opaque]
    pub open spec fn intrinsic(
        self,
        intrinsic: Intrinsic,
        args: Seq<Given<'a>>,
        span: Span,
        deeper: Deeper<'a>,
    ) -> (BodyView<'a>, Value) {
        let b = self;
        let (b, constructed) = b.recorded(span);
        match intrinsic {
            Intrinsic::ListNew => {
                match args_of_view(constructed, Builtin::List) {
                    Some(held) => {
                        match ty_at_view(held, 0) {
                            Some(element) => {
                                b.emit(
                                    InstKindView::MakeList { element, values: Seq::empty() },
                                    constructed,
                                    span,
                                )
                            },
                            None => b.missing(span, "a list constructor without an element type"@),
                        }
                    },
                    None => b.missing(span, "a collection constructor with an unresolved type"@),
                }
            },
            Intrinsic::MapNew => {
                match args_of_view(constructed, Builtin::MapTy) {
                    Some(held) => {
                        match ty_at_view(held, 0) {
                            Some(key) => {
                                match ty_at_view(held, 1) {
                                    Some(value) => {
                                        b.emit(
                                            InstKindView::MakeMap {
                                                key,
                                                value,
                                                entries: Seq::empty(),
                                            },
                                            constructed,
                                            span,
                                        )
                                    },
                                    None => b.missing(span, "a map constructor without key and value types"@),
                                }
                            },
                            None => b.missing(span, "a map constructor without key and value types"@),
                        }
                    },
                    None => b.missing(span, "a collection constructor with an unresolved type"@),
                }
            },
            Intrinsic::SetNew => {
                match args_of_view(constructed, Builtin::SetTy) {
                    Some(held) => {
                        match ty_at_view(held, 0) {
                            Some(element) => {
                                b.emit(
                                    InstKindView::MakeSet { element, values: Seq::empty() },
                                    constructed,
                                    span,
                                )
                            },
                            None => b.missing(span, "a set constructor without an element type"@),
                        }
                    },
                    None => b.missing(span, "a collection constructor with an unresolved type"@),
                }
            },
            Intrinsic::Identical => {
                if args.len() != 2 {
                    b.missing(span, "an `identical` without two values"@)
                } else {
                    let (b, left) = b.expr(*args[0].value, None, deeper);
                    let (b, right) = b.expr(*args[1].value, None, deeper);
                    b.emit(
                        InstKindView::Binary { op: BinaryOp::Equal, left, right },
                        TyView::Bool,
                        span,
                    )
                }
            },
            Intrinsic::Error => {
                if args.len() == 0 {
                    b.missing(span, "an `Error` without a message"@)
                } else {
                    let (b, message) = b.expr(*args[0].value, Some(TyView::Str), deeper);
                    b.emit(InstKindView::MakeError { message }, TyView::Error, span)
                }
            },
            Intrinsic::Print => {
                b.print(args, span, deeper)
            },
            Intrinsic::Panic => {
                let (b, message) = if args.len() > 0 {
                    b.expr(*args[0].value, Some(TyView::Str), deeper)
                } else {
                    b.missing(span, "a panic message"@)
                };
                b.emit(InstKindView::Panic { message }, TyView::Never, span)
            },
            Intrinsic::DebugAssert => {
                if b.context.mode == CompilationMode::Release {
                    b.unit(span)
                } else {
                    b.assertion(args, span, deeper)
                }
            },
            Intrinsic::Assert => {
                b.assertion(args, span, deeper)
            },
        }
    }

    /// Writing a line out.
    #[verifier::opaque]
    pub open spec fn print(
        self,
        args: Seq<Given<'a>>,
        span: Span,
        deeper: Deeper<'a>,
    ) -> (BodyView<'a>, Value) {
        let b = self;
        if args.len() == 0 {
            let (b, value) = b.emit(InstKindView::Const(ConstView::Str(""@)), TyView::Str, span);
            let b = b.emit_void(InstKindView::Print { value }, span);
            b.unit(span)
        } else {
            if args.len() != 1 {
                let b = b.run_each(args, deeper, args.len());
                b.missing(span, "`print` with more than one value"@)
            } else {
                let (b, value) = b.expr(*args[0].value, None, deeper);
                let (b, text) = b.display(value, args[0].value.span);
                let b = b.emit_void(InstKindView::Print { value: text }, span);
                b.unit(span)
            }
        }
    }

    /// Each argument evaluated, for what it does.
    #[verifier::opaque]
    pub open spec fn run_each(
        self,
        args: Seq<Given<'a>>,
        deeper: Deeper<'a>,
        count: nat,
    ) -> BodyView<'a>
        decreases count,
    {
        if count == 0 {
            self
        } else {
            let b = self.run_each(args, deeper, (count - 1) as nat);
            let i = (count - 1) as nat;
            let (b, _) = b.expr(*args[i as int].value, None, deeper);
            b
        }
    }

    /// An assertion, by the condition it names and the message.
    #[verifier::opaque]
    pub open spec fn assertion(
        self,
        args: Seq<Given<'a>>,
        span: Span,
        deeper: Deeper<'a>,
    ) -> (BodyView<'a>, Value) {
        let b = self;
        let slots = assertion_slots_view(args);
        let (b, values) = b.assertion_values(args, slots, deeper, args.len());
        let (b, condition) = match last_filling_view(slots, values, true) {
            Some(value) => {
                (b, value)
            },
            None => {
                b.missing(span, "an assertion condition"@)
            },
        };
        let message = last_filling_view(slots, values, false);
        let b = b.emit_void(InstKindView::Assert { condition, message }, span);
        b.unit(span)
    }

    /// What each argument of an assertion produces: a condition or a message.
    #[verifier::opaque]
    pub open spec fn assertion_values(
        self,
        args: Seq<Given<'a>>,
        slots: Seq<bool>,
        deeper: Deeper<'a>,
        count: nat,
    ) -> (BodyView<'a>, Seq<Value>)
        decreases count,
    {
        if count == 0 {
            (self, Seq::empty())
        } else {
            let (b, values) = self.assertion_values(args, slots, deeper, (count - 1) as nat);
            let i = (count - 1) as nat;
            let (b, value) = if slot_at_view(slots, i) {
                b.expr(*args[i as int].value, Some(TyView::Bool), deeper)
            } else {
                b.expr(*args[i as int].value, Some(TyView::Str), deeper)
            };
            let values = values.push(value);
            (b, values)
        }
    }

    /// The element at an index, absent where there is none.
    #[verifier::opaque]
    pub open spec fn checked_index(
        self,
        callee: Expr,
        args: Seq<Given<'a>>,
        span: Span,
        deeper: Deeper<'a>,
    ) -> (BodyView<'a>, Value) {
        let b = self;
        let (b, receiver) = b.expr(callee, None, deeper);
        let held = b.type_at(receiver);
        match builtin_args_view(held) {
            Some(type_args) => {
                match looked_up_by_view(builtin_kind_view(held), type_args) {
                    Some(wanted) => {
                        if args.len() != 1 {
                            b.missing(span, "a checked lookup without one key"@)
                        } else {
                            let (b, index) = b.expr(*args[0].value, Some(wanted), deeper);
                            let (b, result) = b.recorded(span);
                            b.emit(InstKindView::GetCheckedIndex { receiver, index }, result, span)
                        }
                    },
                    None => b.missing(span, "a checked lookup without one key"@),
                }
            },
            None => b.missing(span, "a checked lookup on something that is not a collection"@),
        }
    }

    /// A method that changes what a collection holds.
    #[verifier::opaque]
    pub open spec fn collection_mutation(
        self,
        mutation: CollectionMutation,
        callee: Expr,
        args: Seq<Given<'a>>,
        span: Span,
        deeper: Deeper<'a>,
    ) -> (BodyView<'a>, Value) {
        let b = self;
        let (b, receiver) = b.expr(callee, None, deeper);
        let held = b.collection_args(receiver);
        match ty_at_view(held, 0) {
            Some(element) => {
                match mutation {
                    CollectionMutation::ListPop => {
                        let (b, result) = b.recorded(span);
                        b.emit(InstKindView::ListPop { receiver }, result, span)
                    },
                    CollectionMutation::Clear => {
                        let b = b.emit_void(InstKindView::Clear { receiver }, span);
                        b.unit(span)
                    },
                    CollectionMutation::ListRemoveAt => {
                        if args.len() == 0 {
                            b.missing(span, "a list mutation without an index"@)
                        } else {
                            let (b, index) = b.expr(
                                *args[0].value,
                                Some(TyView::integer()),
                                deeper,
                            );
                            let (b, result) = b.recorded(span);
                            b.emit(InstKindView::ListRemoveAt { receiver, index }, result, span)
                        }
                    },
                    CollectionMutation::ListInsert => {
                        if args.len() == 0 {
                            b.missing(span, "a list mutation without an index"@)
                        } else {
                            let (b, index) = b.expr(
                                *args[0].value,
                                Some(TyView::integer()),
                                deeper,
                            );
                            if args.len() < 2 {
                                b.missing(span, "an insertion without a value"@)
                            } else {
                                let (b, value) = b.expr(*args[1].value, Some(element), deeper);
                                let b = b.emit_void(
                                    InstKindView::ListInsert { receiver, index, value },
                                    span,
                                );
                                b.unit(span)
                            }
                        }
                    },
                    CollectionMutation::MapRemove => {
                        if args.len() == 0 {
                            b.missing(span, "a removal without a key"@)
                        } else {
                            let (b, key) = b.expr(*args[0].value, Some(element), deeper);
                            let (b, result) = b.recorded(span);
                            b.emit(InstKindView::MapRemove { receiver, key }, result, span)
                        }
                    },
                    CollectionMutation::SetRemove => {
                        if args.len() == 0 {
                            b.missing(span, "a removal without a key"@)
                        } else {
                            let (b, value) = b.expr(*args[0].value, Some(element), deeper);
                            let (b, result) = b.recorded(span);
                            b.emit(InstKindView::SetRemove { receiver, value }, result, span)
                        }
                    },
                    CollectionMutation::ListPush => {
                        if args.len() == 0 {
                            b.missing(span, "a collection mutation without a value"@)
                        } else {
                            let (b, value) = b.expr(*args[0].value, Some(element), deeper);
                            let b = b.emit_void(InstKindView::ListPush { receiver, value }, span);
                            b.unit(span)
                        }
                    },
                    CollectionMutation::SetInsert => {
                        if args.len() == 0 {
                            b.missing(span, "a collection mutation without a value"@)
                        } else {
                            let (b, value) = b.expr(*args[0].value, Some(element), deeper);
                            let b = b.emit_void(InstKindView::SetInsert { receiver, value }, span);
                            b.unit(span)
                        }
                    },
                }
            },
            None => b.missing(span, "a collection mutation without an element type"@),
        }
    }

    /// Whether a collection holds a value.
    #[verifier::opaque]
    pub open spec fn contains(
        self,
        callee: Expr,
        args: Seq<Given<'a>>,
        span: Span,
        deeper: Deeper<'a>,
    ) -> (BodyView<'a>, Value) {
        let b = self;
        let (b, receiver) = b.expr(callee, None, deeper);
        let held = b.collection_args(receiver);
        match ty_at_view(held, 0) {
            Some(element) => {
                if args.len() == 0 {
                    b.missing(span, "a lookup without a key"@)
                } else {
                    let (b, value) = b.expr(*args[0].value, Some(element), deeper);
                    b.emit(InstKindView::Contains { receiver, value }, TyView::Bool, span)
                }
            },
            None => b.missing(span, "a lookup without a key type"@),
        }
    }

    /// `optional:okOr(error)` is `Ok` of what it holds, or `Err` of `error`.
    #[verifier::opaque]
    pub open spec fn ok_or(
        self,
        callee: Expr,
        args: Seq<Given<'a>>,
        span: Span,
        deeper: Deeper<'a>,
    ) -> (BodyView<'a>, Value) {
        let b = self;
        let (b, optional_value) = b.expr(callee, None, deeper);
        let held = b.type_at(optional_value);
        match optional_inner_view(held) {
            Some(inner) => {
                let (b, result) = b.recorded(span);
                match result_error_view(result) {
                    Some(error_ty) => {
                        if args.len() == 0 {
                            b.missing(span, "an `okOr` without an error"@)
                        } else {
                            let (b, error) = b.stored(*args[0].value, Some(error_ty), deeper);
                            let (b, present) = b.add_block(span);
                            let (b, absent) = b.add_block(span);
                            let (b, join) = b.add_block(span);
                            let (b, there) = b.emit(
                                InstKindView::IsSome { value: optional_value },
                                TyView::Bool,
                                span,
                            );
                            let b = b.branch(there, present, absent);
                            let b = b.switch_to(present);
                            let (b, inside) = b.emit(
                                InstKindView::Unwrap { value: optional_value },
                                inner,
                                span,
                            );
                            let (b, ok) = b.variant_with(result, 0, inside, span);
                            let b = b.jump_with(join, ok);
                            let b = b.switch_to(absent);
                            let (b, err) = b.variant_with(result, 1, error, span);
                            let b = b.jump_with(join, err);
                            let b = b.switch_to(join);
                            b.add_block_param(join, result, span)
                        }
                    },
                    None => b.missing(span, "an `okOr` whose result is not a `Result`"@),
                }
            },
            None => b.missing(span, "`okOr` on a value that is not optional"@),
        }
    }

    /// `result:mapErr(f)` is the same `Ok`, or `Err` of what `f` makes of the error.
    /// What `f` throws goes on outward, as it does from any call through a value.
    #[verifier::opaque]
    pub open spec fn map_err(
        self,
        callee: Expr,
        args: Seq<Given<'a>>,
        span: Span,
        deeper: Deeper<'a>,
    ) -> (BodyView<'a>, Value) {
        let b = self;
        let (b, result) = b.expr(callee, None, deeper);
        let held = b.type_at(result);
        match args_of_view(held, Builtin::Result) {
            Some(parts) => {
                match ty_at_view(parts, 0) {
                    Some(value_ty) => {
                        match ty_at_view(parts, 1) {
                            Some(error_ty) => {
                                let (b, mapped) = b.recorded(span);
                                match args_of_view(mapped, Builtin::Result) {
                                    Some(mapped_parts) => {
                                        match ty_at_view(mapped_parts, 1) {
                                            Some(mapped_error) => {
                                                if args.len() == 0 {
                                                    b.missing(
                                                        span,
                                                        "a `mapErr` without a function"@,
                                                    )
                                                } else {
                                                    let map_ty = function_over_view(
                                                        error_ty,
                                                        mapped_error,
                                                    );
                                                    let (b, map) = b.expr(
                                                        *args[0].value,
                                                        Some(map_ty),
                                                        deeper,
                                                    );
                                                    let (b, failed) = b.add_block(span);
                                                    let (b, succeeded) = b.add_block(span);
                                                    let (b, join) = b.add_block(span);
                                                    let b = b.error_test(
                                                        result,
                                                        failed,
                                                        succeeded,
                                                        span,
                                                    );
                                                    let b = b.switch_to(failed);
                                                    let (b, error) = b.payload(
                                                        result,
                                                        1,
                                                        error_ty,
                                                        span,
                                                    );
                                                    let (b, produced) = b.emit(
                                                        InstKindView::CallIndirect {
                                                            callee: map,
                                                            args: seq1(error),
                                                        },
                                                        thrown_or_view(mapped_error),
                                                        span,
                                                    );
                                                    let (b, replaced) = b.caught_or_raised(
                                                        produced,
                                                        mapped_error,
                                                        span,
                                                        deeper,
                                                    );
                                                    let (b, failure) = b.variant_with(
                                                        mapped,
                                                        1,
                                                        replaced,
                                                        span,
                                                    );
                                                    let b = b.jump_with(join, failure);
                                                    let b = b.switch_to(succeeded);
                                                    let (b, value) = b.payload(
                                                        result,
                                                        0,
                                                        value_ty,
                                                        span,
                                                    );
                                                    let (b, success) = b.variant_with(
                                                        mapped,
                                                        0,
                                                        value,
                                                        span,
                                                    );
                                                    let b = b.jump_with(join, success);
                                                    let b = b.switch_to(join);
                                                    b.add_block_param(join, mapped, span)
                                                }
                                            },
                                            None => b.missing(span, "a mapped `Result` without an error type"@),
                                        }
                                    },
                                    None => b.missing(span, "a `mapErr` whose result is not a `Result`"@),
                                }
                            },
                            None => b.missing(span, "a `Result` without both type arguments"@),
                        }
                    },
                    None => b.missing(span, "a `Result` without both type arguments"@),
                }
            },
            None => b.missing(span, "`mapErr` on a value that is not a `Result`"@),
        }
    }

    /// `x:wrappingAdd(y)` and its kin apply the operator they name with the overflow
    /// behavior they name.
    #[verifier::opaque]
    pub open spec fn overflow_method(
        self,
        method: OverflowMethod,
        callee: Expr,
        args: Seq<Given<'a>>,
        span: Span,
        deeper: Deeper<'a>,
    ) -> (BodyView<'a>, Value) {
        let b = self;
        match binary_op_view(method.op) {
            Some(op) => {
                let (b, result) = b.recorded(span);
                let operand = or_else_view(optional_inner_view(result), result);
                let (b, left) = b.expr(callee, Some(operand), deeper);
                if args.len() == 0 {
                    b.missing(span, "an overflow-explicit operation without an operand"@)
                } else {
                    let (b, right) = b.expr(*args[0].value, Some(operand), deeper);
                    b.emit(
                        InstKindView::Overflowing { mode: method.mode, op, left, right },
                        result,
                        span,
                    )
                }
            },
            None => b.missing(span, "an overflow-explicit operator"@),
        }
    }
}

impl<'a> Body<'a> {
    /// A call that reaches no declaration because the language knows it.
    pub fn builtin(
        &mut self,
        builtin: BuiltinCall,
        callee: &'a Expr,
        args: &Vec<Given<'a>>,
        span: Span,
        fuel: u32,
    ) -> (produced: Value)
        ensures
            (final(self)@, produced) == old(self)@.builtin(
                builtin,
                *callee,
                args@,
                span,
                deeper(fuel as nat),
            ),
        decreases fuel, 8nat, 0nat,
    {
        proof {
            reveal(BodyView::builtin);
        }
        match builtin {
            BuiltinCall::Freeze => {
                let value = self.expr(callee, None, fuel);
                let ty = self.recorded(span);
                self.emit(InstKind::Freeze { value }, ty, span)
            },
            BuiltinCall::CheckedIndex => {
                self.checked_index(callee, args, span, fuel)
            },
            BuiltinCall::Contains => {
                self.contains(callee, args, span, fuel)
            },
            BuiltinCall::OkOr => {
                self.ok_or(callee, args, span, fuel)
            },
            BuiltinCall::MapErr => {
                self.map_err(callee, args, span, fuel)
            },
            BuiltinCall::Mutation(mutation) => {
                self.collection_mutation(mutation, callee, args, span, fuel)
            },
            BuiltinCall::Overflow(method) => {
                self.overflow_method(method, callee, args, span, fuel)
            },
            BuiltinCall::Intrinsic(intrinsic) => {
                self.intrinsic(intrinsic, args, span, fuel)
            },
        }
    }

    /// `read` and `write` are the load and the store themselves, and `add` moves the
    /// pointer.
    pub fn memory_method(
        &mut self,
        callee: &'a Expr,
        name: &str,
        target: Ty,
        args: &Vec<Given<'a>>,
        span: Span,
        fuel: u32,
    ) -> (produced: Value)
        ensures
            (final(self)@, produced) == old(self)@.memory_method(
                *callee,
                name@,
                target@,
                args@,
                span,
                deeper(fuel as nat),
            ),
        decreases fuel, 6nat, 0nat,
    {
        proof {
            reveal(BodyView::memory_method);
        }
        let pointer = self.expr(callee, None, fuel);
        if same_text(name, "read") && args.len() == 0 {
            return self.emit(InstKind::Load { pointer }, target, span);
        }
        if same_text(name, "write") && args.len() == 1 {
            let value = self.stored(args[0].value, Some(&target), fuel);
            self.emit_void(InstKind::Store { pointer, value }, span);
            return self.unit(span);
        }
        if same_text(name, "add") && args.len() == 1 {
            let count = self.expr(args[0].value, Some(&Ty::Int(IntTy::Isize)), fuel);
            let ty = self.type_at(pointer);
            return self.emit(InstKind::Offset { pointer, count }, ty, span);
        }
        self.missing(span, "a memory method of this shape")
    }

    /// A call to something the language provides.
    pub fn intrinsic(
        &mut self,
        intrinsic: Intrinsic,
        args: &Vec<Given<'a>>,
        span: Span,
        fuel: u32,
    ) -> (produced: Value)
        ensures
            (final(self)@, produced) == old(self)@.intrinsic(
                intrinsic,
                args@,
                span,
                deeper(fuel as nat),
            ),
        decreases fuel, 7nat, 0nat,
    {
        proof {
            reveal(BodyView::intrinsic);
        }
        let constructed = self.recorded(span);
        match intrinsic {
            Intrinsic::ListNew => {
                let held = match args_of(&constructed, Builtin::List) {
                    Some(held) => held,
                    None => {
                        return self.missing(
                            span,
                            "a collection constructor with an unresolved type",
                        );
                    },
                };
                let element = match ty_at(&held, 0) {
                    Some(element) => element,
                    None => {
                        return self.missing(span, "a list constructor without an element type");
                    },
                };
                self.emit(InstKind::MakeList { element, values: no_values() }, constructed, span)
            },
            Intrinsic::MapNew => {
                let held = match args_of(&constructed, Builtin::MapTy) {
                    Some(held) => held,
                    None => {
                        return self.missing(
                            span,
                            "a collection constructor with an unresolved type",
                        );
                    },
                };
                let key = match ty_at(&held, 0) {
                    Some(key) => key,
                    None => {
                        return self.missing(span, "a map constructor without key and value types");
                    },
                };
                let value = match ty_at(&held, 1) {
                    Some(value) => value,
                    None => {
                        return self.missing(span, "a map constructor without key and value types");
                    },
                };
                self.emit(
                    InstKind::MakeMap { key, value, entries: no_entries() },
                    constructed,
                    span,
                )
            },
            Intrinsic::SetNew => {
                let held = match args_of(&constructed, Builtin::SetTy) {
                    Some(held) => held,
                    None => {
                        return self.missing(
                            span,
                            "a collection constructor with an unresolved type",
                        );
                    },
                };
                let element = match ty_at(&held, 0) {
                    Some(element) => element,
                    None => {
                        return self.missing(span, "a set constructor without an element type");
                    },
                };
                self.emit(InstKind::MakeSet { element, values: no_values() }, constructed, span)
            },
            // Identity is the address, so two values are identical where they are one
            // pointer.
            Intrinsic::Identical => {
                if args.len() != 2 {
                    return self.missing(span, "an `identical` without two values");
                }
                let left = self.expr(args[0].value, None, fuel);
                let right = self.expr(args[1].value, None, fuel);
                self.emit(InstKind::Binary { op: BinaryOp::Equal, left, right }, Ty::Bool, span)
            },
            Intrinsic::Error => {
                if args.len() == 0 {
                    return self.missing(span, "an `Error` without a message");
                }
                let message = self.expr(args[0].value, Some(&Ty::Str), fuel);
                self.emit(InstKind::MakeError { message }, Ty::Error, span)
            },
            Intrinsic::Print => {
                self.print(args, span, fuel)
            },
            Intrinsic::Panic => {
                let message = if args.len() > 0 {
                    self.expr(args[0].value, Some(&Ty::Str), fuel)
                } else {
                    self.missing(span, "a panic message")
                };
                self.emit(InstKind::Panic { message }, Ty::Never, span)
            },
            Intrinsic::DebugAssert => {
                if self.context.mode == CompilationMode::Release {
                    return self.unit(span);
                }
                self.assertion(args, span, fuel)
            },
            Intrinsic::Assert => {
                self.assertion(args, span, fuel)
            },
        }
    }

    /// Writing a line out.
    pub fn print(&mut self, args: &Vec<Given<'a>>, span: Span, fuel: u32) -> (produced: Value)
        ensures
            (final(self)@, produced) == old(self)@.print(args@, span, deeper(fuel as nat)),
        decreases fuel, 6nat, 0nat,
    {
        proof {
            reveal(BodyView::print);
        }
        if args.len() == 0 {
            let value = self.emit(InstKind::Const(Const::Str("".to_owned())), Ty::Str, span);
            self.emit_void(InstKind::Print { value }, span);
            return self.unit(span);
        }
        if args.len() != 1 {
            self.run_each(args, fuel);
            return self.missing(span, "`print` with more than one value");
        }
        let value = self.expr(args[0].value, None, fuel);
        let text = self.display(value, args[0].value.span);
        self.emit_void(InstKind::Print { value: text }, span);
        self.unit(span)
    }

    /// Each argument evaluated, for what it does.
    pub fn run_each(&mut self, args: &Vec<Given<'a>>, fuel: u32)
        ensures
            final(self)@ == old(self)@.run_each(args@, deeper(fuel as nat), args@.len()),
        decreases fuel, 1nat, args@.len(),
    {
        let ghost start = self@;
        let mut i: usize = 0;
        proof {
            reveal(BodyView::run_each);
        }
        while i < args.len()
            invariant
                i <= args.len(),
                self@ == start.run_each(args@, deeper(fuel as nat), i as nat),
            decreases args.len() - i,
        {
            proof {
                reveal(BodyView::run_each);
            }
            let _ = self.expr(args[i].value, None, fuel);
            i += 1;
        }
    }

    /// An assertion, by the condition it names and the message.
    pub fn assertion(&mut self, args: &Vec<Given<'a>>, span: Span, fuel: u32) -> (produced: Value)
        ensures
            (final(self)@, produced) == old(self)@.assertion(args@, span, deeper(fuel as nat)),
        decreases fuel, 6nat, 0nat,
    {
        proof {
            reveal(BodyView::assertion);
        }
        let slots = assertion_slots(args);
        let values = self.assertion_values(args, &slots, fuel);
        let condition = match last_filling(&slots, &values, true) {
            Some(value) => {
                value
            },
            None => {
                self.missing(span, "an assertion condition")
            },
        };
        let message = last_filling(&slots, &values, false);
        self.emit_void(InstKind::Assert { condition, message }, span);
        self.unit(span)
    }

    /// What each argument of an assertion produces: a condition or a message.
    pub fn assertion_values(
        &mut self,
        args: &Vec<Given<'a>>,
        slots: &Vec<bool>,
        fuel: u32,
    ) -> (values: Vec<Value>)
        ensures
            (final(self)@, values@) == old(self)@.assertion_values(
                args@,
                slots@,
                deeper(fuel as nat),
                args@.len(),
            ),
        decreases fuel, 1nat, args@.len(),
    {
        let ghost start = self@;
        let mut values: Vec<Value> = Vec::new();
        let mut i: usize = 0;
        proof {
            reveal(BodyView::assertion_values);
        }
        while i < args.len()
            invariant
                i <= args.len(),
                (self@, values@) == start.assertion_values(
                    args@,
                    slots@,
                    deeper(fuel as nat),
                    i as nat,
                ),
            decreases args.len() - i,
        {
            proof {
                reveal(BodyView::assertion_values);
            }
            let value = if slot_at(slots, i) {
                self.expr(args[i].value, Some(&Ty::Bool), fuel)
            } else {
                self.expr(args[i].value, Some(&Ty::Str), fuel)
            };
            values.push(value);
            i += 1;
        }
        values
    }

    /// The element at an index, absent where there is none.
    pub fn checked_index(
        &mut self,
        callee: &'a Expr,
        args: &Vec<Given<'a>>,
        span: Span,
        fuel: u32,
    ) -> (produced: Value)
        ensures
            (final(self)@, produced) == old(self)@.checked_index(
                *callee,
                args@,
                span,
                deeper(fuel as nat),
            ),
        decreases fuel, 6nat, 0nat,
    {
        proof {
            reveal(BodyView::checked_index);
        }
        let receiver = self.expr(callee, None, fuel);
        let held = self.type_at(receiver);
        let type_args = match builtin_args(&held) {
            Some(type_args) => type_args,
            None => {
                return self.missing(span, "a checked lookup on something that is not a collection");
            },
        };
        let wanted = match looked_up_by(builtin_kind(&held), &type_args) {
            Some(wanted) => wanted,
            None => {
                return self.missing(span, "a checked lookup without one key");
            },
        };
        if args.len() != 1 {
            return self.missing(span, "a checked lookup without one key");
        }
        let index = self.expr(args[0].value, Some(&wanted), fuel);
        let result = self.recorded(span);
        self.emit(InstKind::GetCheckedIndex { receiver, index }, result, span)
    }

    /// A method that changes what a collection holds.
    pub fn collection_mutation(
        &mut self,
        mutation: CollectionMutation,
        callee: &'a Expr,
        args: &Vec<Given<'a>>,
        span: Span,
        fuel: u32,
    ) -> (produced: Value)
        ensures
            (final(self)@, produced) == old(self)@.collection_mutation(
                mutation,
                *callee,
                args@,
                span,
                deeper(fuel as nat),
            ),
        decreases fuel, 6nat, 0nat,
    {
        proof {
            reveal(BodyView::collection_mutation);
        }
        let receiver = self.expr(callee, None, fuel);
        let held = self.collection_args(receiver);
        let element = match ty_at(&held, 0) {
            Some(element) => element,
            None => {
                return self.missing(span, "a collection mutation without an element type");
            },
        };
        match mutation {
            CollectionMutation::ListPop => {
                let result = self.recorded(span);
                self.emit(InstKind::ListPop { receiver }, result, span)
            },
            CollectionMutation::Clear => {
                self.emit_void(InstKind::Clear { receiver }, span);
                self.unit(span)
            },
            CollectionMutation::ListRemoveAt => {
                if args.len() == 0 {
                    return self.missing(span, "a list mutation without an index");
                }
                let index = self.expr(args[0].value, Some(&Ty::integer()), fuel);
                let result = self.recorded(span);
                self.emit(InstKind::ListRemoveAt { receiver, index }, result, span)
            },
            CollectionMutation::ListInsert => {
                if args.len() == 0 {
                    return self.missing(span, "a list mutation without an index");
                }
                let index = self.expr(args[0].value, Some(&Ty::integer()), fuel);
                if args.len() < 2 {
                    return self.missing(span, "an insertion without a value");
                }
                let value = self.expr(args[1].value, Some(&element), fuel);
                self.emit_void(InstKind::ListInsert { receiver, index, value }, span);
                self.unit(span)
            },
            CollectionMutation::MapRemove => {
                if args.len() == 0 {
                    return self.missing(span, "a removal without a key");
                }
                let key = self.expr(args[0].value, Some(&element), fuel);
                let result = self.recorded(span);
                self.emit(InstKind::MapRemove { receiver, key }, result, span)
            },
            CollectionMutation::SetRemove => {
                if args.len() == 0 {
                    return self.missing(span, "a removal without a key");
                }
                let value = self.expr(args[0].value, Some(&element), fuel);
                let result = self.recorded(span);
                self.emit(InstKind::SetRemove { receiver, value }, result, span)
            },
            CollectionMutation::ListPush => {
                if args.len() == 0 {
                    return self.missing(span, "a collection mutation without a value");
                }
                let value = self.expr(args[0].value, Some(&element), fuel);
                self.emit_void(InstKind::ListPush { receiver, value }, span);
                self.unit(span)
            },
            CollectionMutation::SetInsert => {
                if args.len() == 0 {
                    return self.missing(span, "a collection mutation without a value");
                }
                let value = self.expr(args[0].value, Some(&element), fuel);
                self.emit_void(InstKind::SetInsert { receiver, value }, span);
                self.unit(span)
            },
        }
    }

    /// Whether a collection holds a value.
    pub fn contains(
        &mut self,
        callee: &'a Expr,
        args: &Vec<Given<'a>>,
        span: Span,
        fuel: u32,
    ) -> (produced: Value)
        ensures
            (final(self)@, produced) == old(self)@.contains(
                *callee,
                args@,
                span,
                deeper(fuel as nat),
            ),
        decreases fuel, 6nat, 0nat,
    {
        proof {
            reveal(BodyView::contains);
        }
        let receiver = self.expr(callee, None, fuel);
        let held = self.collection_args(receiver);
        let element = match ty_at(&held, 0) {
            Some(element) => element,
            None => {
                return self.missing(span, "a lookup without a key type");
            },
        };
        if args.len() == 0 {
            return self.missing(span, "a lookup without a key");
        }
        let value = self.expr(args[0].value, Some(&element), fuel);
        self.emit(InstKind::Contains { receiver, value }, Ty::Bool, span)
    }

    /// `optional:okOr(error)` is `Ok` of what it holds, or `Err` of `error`.
    pub fn ok_or(
        &mut self,
        callee: &'a Expr,
        args: &Vec<Given<'a>>,
        span: Span,
        fuel: u32,
    ) -> (produced: Value)
        ensures
            (final(self)@, produced) == old(self)@.ok_or(*callee, args@, span, deeper(fuel as nat)),
        decreases fuel, 6nat, 0nat,
    {
        proof {
            reveal(BodyView::ok_or);
        }
        let optional_value = self.expr(callee, None, fuel);
        let held = self.type_at(optional_value);
        let inner = match optional_inner(&held) {
            Some(inner) => inner,
            None => {
                return self.missing(span, "`okOr` on a value that is not optional");
            },
        };
        let result = self.recorded(span);
        let error_ty = match result_error(&result) {
            Some(error_ty) => error_ty,
            None => {
                return self.missing(span, "an `okOr` whose result is not a `Result`");
            },
        };
        if args.len() == 0 {
            return self.missing(span, "an `okOr` without an error");
        }
        let error = self.stored(args[0].value, Some(&error_ty), fuel);
        let present = self.add_block(span);
        let absent = self.add_block(span);
        let join = self.add_block(span);
        let there = self.emit(InstKind::IsSome { value: optional_value }, Ty::Bool, span);
        self.branch(there, present, absent);
        self.switch_to(present);
        let inside = self.emit(InstKind::Unwrap { value: optional_value }, inner, span);
        let ok = self.variant_with(&result, 0, inside, span);
        self.jump_with(join, ok);
        self.switch_to(absent);
        let err = self.variant_with(&result, 1, error, span);
        self.jump_with(join, err);
        self.switch_to(join);
        self.add_block_param(join, result, span)
    }

    /// `result:mapErr(f)` is the same `Ok`, or `Err` of what `f` makes of the error.
    /// What `f` throws goes on outward, as it does from any call through a value.
    pub fn map_err(
        &mut self,
        callee: &'a Expr,
        args: &Vec<Given<'a>>,
        span: Span,
        fuel: u32,
    ) -> (produced: Value)
        ensures
            (final(self)@, produced) == old(self)@.map_err(
                *callee,
                args@,
                span,
                deeper(fuel as nat),
            ),
        decreases fuel, 6nat, 0nat,
    {
        proof {
            reveal(BodyView::map_err);
        }
        let result = self.expr(callee, None, fuel);
        let held = self.type_at(result);
        let parts = match args_of(&held, Builtin::Result) {
            Some(parts) => parts,
            None => {
                return self.missing(span, "`mapErr` on a value that is not a `Result`");
            },
        };
        let value_ty = match ty_at(&parts, 0) {
            Some(value_ty) => value_ty,
            None => {
                return self.missing(span, "a `Result` without both type arguments");
            },
        };
        let error_ty = match ty_at(&parts, 1) {
            Some(error_ty) => error_ty,
            None => {
                return self.missing(span, "a `Result` without both type arguments");
            },
        };
        let mapped = self.recorded(span);
        let mapped_parts = match args_of(&mapped, Builtin::Result) {
            Some(mapped_parts) => mapped_parts,
            None => {
                return self.missing(span, "a `mapErr` whose result is not a `Result`");
            },
        };
        let mapped_error = match ty_at(&mapped_parts, 1) {
            Some(mapped_error) => mapped_error,
            None => {
                return self.missing(span, "a mapped `Result` without an error type");
            },
        };
        if args.len() == 0 {
            return self.missing(span, "a `mapErr` without a function");
        }
        let map_ty = function_over(error_ty.clone(), mapped_error.clone());
        let map = self.expr(args[0].value, Some(&map_ty), fuel);
        let failed = self.add_block(span);
        let succeeded = self.add_block(span);
        let join = self.add_block(span);
        self.error_test(result, failed, succeeded, span);
        self.switch_to(failed);
        let error = self.payload(result, 1, error_ty, span);
        let produced = self.emit(
            InstKind::CallIndirect { callee: map, args: one(error) },
            thrown_or(mapped_error.clone()),
            span,
        );
        let replaced = self.caught_or_raised(produced, mapped_error, span, fuel);
        let failure = self.variant_with(&mapped, 1, replaced, span);
        self.jump_with(join, failure);
        self.switch_to(succeeded);
        let value = self.payload(result, 0, value_ty, span);
        let success = self.variant_with(&mapped, 0, value, span);
        self.jump_with(join, success);
        self.switch_to(join);
        self.add_block_param(join, mapped, span)
    }

    /// `x:wrappingAdd(y)` and its kin apply the operator they name with the overflow
    /// behavior they name.
    pub fn overflow_method(
        &mut self,
        method: OverflowMethod,
        callee: &'a Expr,
        args: &Vec<Given<'a>>,
        span: Span,
        fuel: u32,
    ) -> (produced: Value)
        ensures
            (final(self)@, produced) == old(self)@.overflow_method(
                method,
                *callee,
                args@,
                span,
                deeper(fuel as nat),
            ),
        decreases fuel, 6nat, 0nat,
    {
        proof {
            reveal(BodyView::overflow_method);
        }
        let op = match binary_op(method.op) {
            Some(op) => op,
            None => {
                return self.missing(span, "an overflow-explicit operator");
            },
        };
        let result = self.recorded(span);
        let operand = or_else(optional_inner(&result), result.clone());
        let left = self.expr(callee, Some(&operand), fuel);
        if args.len() == 0 {
            return self.missing(span, "an overflow-explicit operation without an operand");
        }
        let right = self.expr(args[0].value, Some(&operand), fuel);
        self.emit(InstKind::Overflowing { mode: method.mode, op, left, right }, result, span)
    }
}

} // verus!
