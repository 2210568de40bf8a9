//! Lowering expressions.

use vstd::prelude::*;

use crate::ast::UnaryOp as AstUnary;
use crate::ast::BinaryOp as AstBinary;
use crate::ast::{Expr, ExprKind, IfBranch, InterpolationPart};
use crate::inst::{
    BinaryOp, Const, ConstView, InstKind, InstKindView, Target, TargetView, Terminator,
    TerminatorView, UnaryOp, Value, no_values, one, two,
};
use crate::span::Span;
use crate::text::{maybe_name, same_text};
use crate::ty::{Builtin, Ty, TyView, tys};

use super::kinds::{
    args_of, args_of_view, binary_op, binary_op_view, is_ty, is_ty_view, opt_str, opt_ty, optional,
    optional_inner, optional_inner_view, optional_view, same_text_view, same_ty, same_ty_view, seq1,
    seq2, target_view, tuple_members, tuple_members_view, ty_at, ty_at_view,
};
use super::asked::{
    asked_or, asked_or_view, bytes_const, bytes_const_view, float_const, float_const_view,
    is_equality, is_equality_view, is_optional_ty, is_optional_ty_view, lowered_unary,
    lowered_unary_view, range_element, range_element_view, tuple_asked, tuple_asked_view, value_or,
    value_or_view,
};
use super::lookups::{
    Arrived, ArrivedView, more_arrived, more_arrived_view, none_arrived, none_arrived_view,
};
use super::deeper::{Deeper, deeper};
use super::derived::Ways;
use super::given::{
    count_of, count_of_view, given, given_one, given_one_view, given_view, is_nil, is_nil_view,
    none_given, or_else, or_else_view, ty_or_never, ty_or_never_view,
};
use super::{Body, BodyView};

verus! {

impl<'a> BodyView<'a> {
    /// Lowers `expr`, and gives back the value it produces, at what context asks
    /// for.
    #[verifier::opaque]
    pub open spec fn expr_within(
        self,
        expr: Expr,
        wanted: Option<TyView>,
        deeper: Deeper<'a>,
    ) -> (BodyView<'a>, Value) {
        let b = self;
        let (b, value) = b.expr_value(expr, wanted, deeper);
        match wanted {
            Some(ty) => {
                b.coerce(value, ty, expr.span)
            },
            None => {
                (b, value)
            },
        }
    }

    /// The value an expression produces.
    #[verifier::opaque]
    pub open spec fn expr_value(
        self,
        expr: Expr,
        wanted: Option<TyView>,
        deeper: Deeper<'a>,
    ) -> (BodyView<'a>, Value) {
        let b = self;
        let span = expr.span;
        match expr.kind {
            ExprKind::Nil => {
                b.emit(
                    InstKindView::Const(ConstView::Nil),
                    asked_or_view(wanted, TyView::Nil),
                    span,
                )
            },
            ExprKind::Bool(value) => {
                b.emit(InstKindView::Const(ConstView::Bool(value)), TyView::Bool, span)
            },
            ExprKind::Integer(value) => {
                let (b, ty) = b.numeric(wanted, span);
                b.emit(InstKindView::Const(ConstView::Int(value)), ty, span)
            },
            ExprKind::Float(value) => {
                let (b, ty) = b.numeric(wanted, span);
                b.emit(float_const_view(value), ty, span)
            },
            ExprKind::Text(value) => {
                b.emit(InstKindView::Const(ConstView::Str(value@)), TyView::Str, span)
            },
            ExprKind::ByteText(value) => {
                b.emit(bytes_const_view(value), TyView::Bytes, span)
            },
            ExprKind::Char(value) => {
                b.emit(InstKindView::Const(ConstView::Char(value)), TyView::Char, span)
            },
            ExprKind::Interpolation(parts) => {
                b.interpolation(parts@, span, deeper)
            },
            ExprKind::Name(name) => {
                b.name(name@, wanted, span, deeper)
            },
            ExprKind::Unary { op, operand } => {
                b.unary(op, *operand, wanted, span, deeper)
            },
            ExprKind::Binary { op, op_span, left, right } => {
                b.binary(op, op_span, *left, *right, span, deeper)
            },
            ExprKind::Range { start, end, .. } => {
                b.range(start, end, span, deeper)
            },
            ExprKind::Call { callee, method, args } => {
                let args = given_view(args@);
                b.call(*callee, maybe_name(method), args, span, deeper)
            },
            ExprKind::Record { path, fields } => {
                b.record(path@, fields@, wanted, span, deeper)
            },
            ExprKind::Function { asynchronous, params, body } => {
                b.closure(asynchronous, params@, *body, span, deeper)
            },
            ExprKind::List(values) => {
                b.list(values@, wanted, span, deeper)
            },
            ExprKind::MapOf(entries) => {
                b.map(entries@, wanted, span, deeper)
            },
            ExprKind::SetOf(values) => {
                b.set(values@, wanted, span, deeper)
            },
            ExprKind::Index { receiver, index, optional } => {
                b.index(*receiver, *index, optional, span, deeper)
            },
            ExprKind::Field { receiver, name, optional } => {
                b.field(*receiver, name@, optional, span, deeper)
            },
            ExprKind::Tuple(members) => {
                b.tuple(members@, wanted, span, deeper)
            },
            ExprKind::If { branches, otherwise } => {
                b.if_expr(branches@, *otherwise, span, deeper)
            },
            ExprKind::Try(inner) => {
                b.propagate(*inner, span, deeper)
            },
            ExprKind::Await(_) => {
                b.missing(span, "await"@)
            },
            ExprKind::Cast { value } => {
                let (b, to) = b.recorded(span);
                let (b, value) = b.expr(*value, None, deeper);
                b.emit(InstKindView::Convert { value, to: to }, to, span)
            },
            ExprKind::AddressOf { mutable, operand } => {
                b.address(mutable, *operand, span, deeper)
            },
            ExprKind::Error => {
                b.missing(span, "an expression that did not parse"@)
            },
            ExprKind::TypeTest { .. } => {
                b.missing(span, "an expression"@)
            },
            ExprKind::Match { .. } => {
                b.missing(span, "an expression"@)
            },
        }
    }

    /// A name read. One the checker proved holds something reads as what it holds.
    #[verifier::opaque]
    pub open spec fn name(
        self,
        name: Seq<char>,
        wanted: Option<TyView>,
        span: Span,
        deeper: Deeper<'a>,
    ) -> (BodyView<'a>, Value) {
        let b = self;
        match b.lookup(name) {
            Some(var) => {
                let (b, value) = b.read_var(var, span);
                let held = b.type_at(value);
                match optional_inner_view(held) {
                    Some(inner) => {
                        if is_ty_view(b.maybe_recorded(span), inner) {
                            b.emit(InstKindView::Unwrap { value }, inner, span)
                        } else {
                            (b, value)
                        }
                    },
                    None => {
                        (b, value)
                    },
                }
            },
            None => {
                b.constant(name, wanted, span, deeper)
            },
        }
    }

    /// A unary operator. One the checker sent through a protocol is a call to the
    /// method it named, taking nothing beside the receiver.
    #[verifier::opaque]
    pub open spec fn unary(
        self,
        op: AstUnary,
        operand: Expr,
        wanted: Option<TyView>,
        span: Span,
        deeper: Deeper<'a>,
    ) -> (BodyView<'a>, Value) {
        let b = self;
        if b.reached(operand.span).is_some() && op != AstUnary::Not {
            let args = Seq::empty();
            if op == AstUnary::BitNot {
                b.call(operand, Some("bitNot"@), args, operand.span, deeper)
            } else {
                b.call(operand, Some("neg"@), args, operand.span, deeper)
            }
        } else {
            let (b, ty) = if op == AstUnary::Not {
                (b, TyView::Bool)
            } else {
                b.settled_type(wanted, span)
            };
            let (b, operand) = b.expr(operand, Some(ty), deeper);
            b.emit(InstKindView::Unary { op: lowered_unary_view(op), operand }, ty, span)
        }
    }

    /// A range that is not counted through: its bounds, each present or not.
    #[verifier::opaque]
    pub open spec fn range(
        self,
        start: Option<Box<Expr>>,
        end: Option<Box<Expr>>,
        span: Span,
        deeper: Deeper<'a>,
    ) -> (BodyView<'a>, Value) {
        let b = self;
        let (b, ty) = b.recorded(span);
        let bound = optional_view(range_element_view(ty));
        let (b, start) = b.bound(start, bound, span, deeper);
        let (b, end) = b.bound(end, bound, span, deeper);
        b.emit(InstKindView::MakeTuple(seq2(start, end)), ty, span)
    }

    /// One bound of a range.
    #[verifier::opaque]
    pub open spec fn bound(
        self,
        written: Option<Box<Expr>>,
        bound: TyView,
        span: Span,
        deeper: Deeper<'a>,
    ) -> (BodyView<'a>, Value) {
        let b = self;
        match written {
            Some(value) => {
                b.expr(*value, Some(bound), deeper)
            },
            None => {
                b.emit(InstKindView::Const(ConstView::Nil), bound, span)
            },
        }
    }

    /// A tuple, each member at its own type.
    #[verifier::opaque]
    pub open spec fn tuple(
        self,
        members: Seq<Expr>,
        wanted: Option<TyView>,
        span: Span,
        deeper: Deeper<'a>,
    ) -> (BodyView<'a>, Value) {
        let b = self;
        if members.len() == 0 {
            b.unit(span)
        } else {
            let (b, types) = match tuple_asked_view(wanted) {
                Some(types) => {
                    (b, Some(types))
                },
                None => {
                    let (b, recorded) = b.recorded(span);
                    (b, tuple_members_view(recorded))
                },
            };
            match types {
                Some(types) => {
                    if types.len() != members.len() {
                        b.missing(span, "a tuple of a length the checker did not agree on"@)
                    } else {
                        let (b, values) = b.each_member(members, types, deeper, members.len());
                        b.emit(InstKindView::MakeTuple(values), TyView::Tuple(types), span)
                    }
                },
                None => b.missing(span, "a tuple whose members have no type"@),
            }
        }
    }

    /// What each member of a tuple produces, at its own type.
    #[verifier::opaque]
    pub open spec fn each_member(
        self,
        members: Seq<Expr>,
        types: Seq<TyView>,
        deeper: Deeper<'a>,
        count: nat,
    ) -> (BodyView<'a>, Seq<Value>)
        decreases count,
    {
        if count == 0 {
            (self, Seq::empty())
        } else {
            let (b, values) = self.each_member(members, types, deeper, (count - 1) as nat);
            let i = (count - 1) as nat;
            let (b, value) = b.expr(members[i as int], Some(ty_or_never_view(types, i)), deeper);
            let values = values.push(value);
            (b, values)
        }
    }

    /// `&x`: a binding whose address is taken lives in a slot, and this is that
    /// slot's address.
    #[verifier::opaque]
    pub open spec fn address(
        self,
        mutable: bool,
        operand: Expr,
        span: Span,
        deeper: Deeper<'a>,
    ) -> (BodyView<'a>, Value) {
        let b = self;
        match operand.kind {
            ExprKind::Name(name) => {
                match b.slot_named(name@) {
                    Some(slot) => {
                        let (b, ty) = b.recorded(span);
                        b.emit(InstKindView::AddressOf { mutable, slot }, ty, span)
                    },
                    None => b.missing(span, "an address of a binding a pattern bound"@),
                }
            },
            ExprKind::Field { receiver, name, optional } => {
                if optional {
                    b.missing(span, "an address of an element"@)
                } else {
                    let (b, object) = b.expr(*receiver, None, deeper);
                    let (b, object) = b.settled(object, operand.span);
                    let held = b.type_at(object);
                    match b.field_index(held, name@) {
                        Some(field) => {
                            let (b, ty) = b.recorded(span);
                            b.emit(InstKindView::FieldAddress { mutable, object, field }, ty, span)
                        },
                        None => b.missing(span, "an address of a member that is not a stored field"@),
                    }
                }
            },
            _ => {
                b.missing(span, "an address of an element"@)
            },
        }
    }

    /// An interpolated string formats its expressions and joins every part from left
    /// to right.
    #[verifier::opaque]
    pub open spec fn interpolation(
        self,
        parts: Seq<InterpolationPart>,
        span: Span,
        deeper: Deeper<'a>,
    ) -> (BodyView<'a>, Value) {
        let b = self;
        let (b, first) = b.emit(InstKindView::Const(ConstView::Str(""@)), TyView::Str, span);
        let (b, joined) = b.interpolated(first, parts, span, deeper, parts.len());
        (b, value_or_view(joined, first))
    }

    /// What the parts joined so far come to.
    #[verifier::opaque]
    pub open spec fn interpolated(
        self,
        first: Value,
        parts: Seq<InterpolationPart>,
        span: Span,
        deeper: Deeper<'a>,
        count: nat,
    ) -> (BodyView<'a>, Option<Value>)
        decreases count,
    {
        if count == 0 {
            (self, None)
        } else {
            let (b, joined) = self.interpolated(first, parts, span, deeper, (count - 1) as nat);
            let i = (count - 1) as nat;
            let (b, next) = match parts[i as int] {
                InterpolationPart::Text(text) => {
                    b.emit(InstKindView::Const(ConstView::Str(text@)), TyView::Str, span)
                },
                InterpolationPart::Expr(expr) => {
                    let (b, value) = b.expr(expr, None, deeper);
                    b.display(value, expr.span)
                },
            };
            let (b, both) = b.emit(
                InstKindView::Binary {
                    op: BinaryOp::Concat,
                    left: value_or_view(joined, first),
                    right: next,
                },
                TyView::Str,
                span,
            );
            let joined = Some(both);
            (b, joined)
        }
    }

    /// `?` hands an error back to the caller, and goes on with what it holds
    /// otherwise.
    #[verifier::opaque]
    pub open spec fn propagate(
        self,
        inner: Expr,
        span: Span,
        deeper: Deeper<'a>,
    ) -> (BodyView<'a>, Value) {
        let b = self;
        let (b, result) = b.expr(inner, None, deeper);
        let held = b.type_at(result);
        match args_of_view(held, Builtin::Result) {
            Some(parts) => {
                match ty_at_view(parts, 0) {
                    Some(value_ty) => {
                        match ty_at_view(parts, 1) {
                            Some(error_ty) => {
                                let declared = b.declared;
                                match args_of_view(declared, Builtin::Result) {
                                    Some(given) => {
                                        match ty_at_view(given, 1) {
                                            Some(given_error) => {
                                                let (b, failed) = b.add_block(span);
                                                let (b, succeeded) = b.add_block(span);
                                                let b = b.error_test(
                                                    result,
                                                    failed,
                                                    succeeded,
                                                    span,
                                                );
                                                let b = b.switch_to(failed);
                                                let (b, error) = b.payload(
                                                    result,
                                                    1,
                                                    error_ty,
                                                    span,
                                                );
                                                let (b, error) = b.propagated_error(
                                                    error,
                                                    given_error,
                                                    span,
                                                );
                                                let (b, back) = b.variant_with(
                                                    declared,
                                                    1,
                                                    error,
                                                    span,
                                                );
                                                let b = b.unwind_from(0, deeper);
                                                let (b, back) = b.returned(back, span);
                                                let b = b.terminate(TerminatorView::Return(back));
                                                let b = b.switch_to(succeeded);
                                                b.payload(result, 0, value_ty, span)
                                            },
                                            None => b.missing(span, "a returned `Result` without an error type"@),
                                        }
                                    },
                                    None => b.missing(span, "`?` in a function that does not return `Result`"@),
                                }
                            },
                            None => b.missing(span, "a `Result` without both type arguments"@),
                        }
                    },
                    None => b.missing(span, "a `Result` without both type arguments"@),
                }
            },
            None => b.missing(span, "`?` on a value that is not a `Result`"@),
        }
    }

    /// The error a caller is handed, converted where it takes another.
    #[verifier::opaque]
    pub open spec fn propagated_error(
        self,
        error: Value,
        wanted: TyView,
        span: Span,
    ) -> (BodyView<'a>, Value) {
        let b = self;
        let held = b.type_at(error);
        if same_ty_view(held, wanted) {
            (b, error)
        } else {
            match b.reached(span) {
                Some(declaration) => {
                    match b.virtual_of(declaration) {
                        Some(method) => {
                            b.emit(
                                InstKindView::CallVirtual {
                                    method,
                                    receiver: error,
                                    args: Seq::empty(),
                                },
                                wanted,
                                span,
                            )
                        },
                        None => {
                            match b.callee_of(declaration) {
                                Some(reached) => {
                                    if !reached.takes_self || reached.params.len() > 0 {
                                        b.missing(span, "an invalid propagated error conversion"@)
                                    } else {
                                        match b.generic_args(span, count_of_view(reached.type_params)) {
                                            Some(type_args) => {
                                                b.emit(
                                                    InstKindView::Call {
                                                        callee: reached.id,
                                                        type_args,
                                                        args: seq1(error),
                                                    },
                                                    wanted,
                                                    span,
                                                )
                                            },
                                            None => b.missing(span, "a propagated error conversion with unknown type arguments"@),
                                        }
                                    }
                                },
                                None => b.missing(span, "a propagated error conversion with no body"@),
                            }
                        },
                    }
                },
                None => b.missing(span, "a propagated error conversion the checker did not resolve"@),
            }
        }
    }

    /// A binary operator. Comparing against `nil` asks whether an optional holds
    /// anything; an operator the checker sent through a protocol is the call it
    /// named.
    #[verifier::opaque]
    pub open spec fn binary(
        self,
        op: AstBinary,
        op_span: Span,
        left: Expr,
        right: Expr,
        span: Span,
        deeper: Deeper<'a>,
    ) -> (BodyView<'a>, Value) {
        let b = self;
        if is_equality_view(op) && is_nil_view(right) && is_optional_ty_view(b.known_type(left)) {
            b.nil_test(op, left, span, deeper)
        } else {
            if is_equality_view(op) && is_nil_view(left) && is_optional_ty_view(b.known_type(right)) {
                b.nil_test(op, right, span, deeper)
            } else {
                if b.reached(op_span).is_some() && b.protocol(op).is_some() {
                    match b.protocol(op) {
                        Some(found) => {
                            b.through_protocol(found.0, found.1, op, left, right, op_span, deeper)
                        },
                        None => b.missing(span, "a binary operator"@),
                    }
                } else {
                    match op {
                        AstBinary::And => {
                            b.logical(true, left, right, span, deeper)
                        },
                        AstBinary::Or => {
                            b.logical(false, left, right, span, deeper)
                        },
                        AstBinary::Coalesce => {
                            b.coalesce(left, right, span, deeper)
                        },
                        _ => {
                            match binary_op_view(op) {
                                Some(lowered) => {
                                    let (b, operand) = b.operand_type(left, right);
                                    let ty = or_else_view(b.maybe_recorded(span), operand);
                                    let (b, left) = b.expr(left, Some(operand), deeper);
                                    let (b, right) = b.expr(right, Some(operand), deeper);
                                    b.emit(
                                        InstKindView::Binary { op: lowered, left, right },
                                        ty,
                                        span,
                                    )
                                },
                                None => b.missing(span, "a binary operator"@),
                            }
                        },
                    }
                }
            }
        }
    }

    /// Whether an optional holds anything, or nothing.
    #[verifier::opaque]
    pub open spec fn nil_test(
        self,
        op: AstBinary,
        value: Expr,
        span: Span,
        deeper: Deeper<'a>,
    ) -> (BodyView<'a>, Value) {
        let b = self;
        let (b, value) = b.expr(value, None, deeper);
        let (b, held) = b.emit(InstKindView::IsSome { value }, TyView::Bool, span);
        if op == AstBinary::NotEqual {
            (b, held)
        } else {
            b.emit(InstKindView::Unary { op: UnaryOp::Not, operand: held }, TyView::Bool, span)
        }
    }

    /// `a + b` is `a:add(b)`, and the four ordering operators are one `compare`
    /// against zero, which is what keeps them consistent.
    #[verifier::opaque]
    pub open spec fn through_protocol(
        self,
        protocol: Seq<char>,
        method: Seq<char>,
        op: AstBinary,
        left: Expr,
        right: Expr,
        span: Span,
        deeper: Deeper<'a>,
    ) -> (BodyView<'a>, Value) {
        let b = self;
        let args = given_one_view(right);
        let (b, called) = b.call(left, Some(method), args, span, deeper);
        if same_text_view(protocol, "Eq"@) && op == AstBinary::NotEqual {
            b.emit(InstKindView::Unary { op: UnaryOp::Not, operand: called }, TyView::Bool, span)
        } else {
            if same_text_view(protocol, "Comparable"@) {
                match binary_op_view(op) {
                    Some(lowered) => {
                        let (b, zero) = b.emit(
                            InstKindView::Const(ConstView::Int(0)),
                            TyView::integer(),
                            span,
                        );
                        b.emit(
                            InstKindView::Binary { op: lowered, left: called, right: zero },
                            TyView::Bool,
                            span,
                        )
                    },
                    None => b.missing(span, "an ordering operator"@),
                }
            } else {
                (b, called)
            }
        }
    }

    /// `and` does not evaluate its right operand where the left is false, and `or`
    /// does not where the left is true.
    #[verifier::opaque]
    pub open spec fn logical(
        self,
        all: bool,
        left: Expr,
        right: Expr,
        span: Span,
        deeper: Deeper<'a>,
    ) -> (BodyView<'a>, Value) {
        let b = self;
        let (b, left) = b.expr(left, Some(TyView::Bool), deeper);
        let (b, rest) = b.add_block(span);
        let (b, join) = b.add_block(span);
        let (b, settled) = b.emit(InstKindView::Const(ConstView::Bool(!all)), TyView::Bool, span);
        let b = if all {
            let b = b.terminate(
                TerminatorView::Branch {
                    condition: left,
                    then: TargetView::to(rest),
                    otherwise: target_view(join, seq1(settled)),
                },
            );
            b
        } else {
            let b = b.terminate(
                TerminatorView::Branch {
                    condition: left,
                    then: target_view(join, seq1(settled)),
                    otherwise: TargetView::to(rest),
                },
            );
            b
        };
        let b = b.switch_to(rest);
        let (b, right) = b.expr(right, Some(TyView::Bool), deeper);
        let b = b.jump_with(join, right);
        let b = b.switch_to(join);
        b.add_block_param(join, TyView::Bool, span)
    }

    /// `??` takes the left where it holds a value, and does not evaluate the right at
    /// all.
    #[verifier::opaque]
    pub open spec fn coalesce(
        self,
        left: Expr,
        right: Expr,
        span: Span,
        deeper: Deeper<'a>,
    ) -> (BodyView<'a>, Value) {
        let b = self;
        let (b, ty) = b.recorded(span);
        let (b, left) = b.expr(left, Some(optional_view(ty)), deeper);
        let (b, ways) = b.split_optional(left, span);
        let b = b.give_present(left, ty, ways, span);
        let b = b.switch_to(ways.otherwise);
        let (b, fallback) = b.expr(right, Some(ty), deeper);
        let b = b.jump_with(ways.join, fallback);
        let b = b.switch_to(ways.join);
        b.add_block_param(ways.join, ty, span)
    }

    /// Gives what is there in `left`. Where the whole may be nothing too, that is `left`
    /// as it is.
    #[verifier::opaque]
    pub open spec fn give_present(
        self,
        left: Value,
        ty: TyView,
        ways: Ways,
        span: Span,
    ) -> BodyView<'a> {
        let b = self;
        let b = b.switch_to(ways.found);
        let (b, inside) = if optional_inner_view(ty).is_some() {
            (b, left)
        } else {
            b.emit(InstKindView::Unwrap { value: left }, ty, span)
        };
        let b = b.jump_with(ways.join, inside);
        b
    }

    /// The expression form of `if`, whose branches each produce the value the `if` is
    /// used at.
    #[verifier::opaque]
    pub open spec fn if_expr(
        self,
        branches: Seq<IfBranch>,
        otherwise: Expr,
        span: Span,
        deeper: Deeper<'a>,
    ) -> (BodyView<'a>, Value) {
        let b = self;
        let (b, ty) = b.recorded(span);
        let (b, join) = b.add_block(span);
        let (b, arrived) = b.if_values(branches, ty, span, deeper, branches.len());
        let (b, value) = b.expr(otherwise, Some(ty), deeper);
        let (b, arrived) = if !b.left {
            (b, more_arrived_view(arrived, b.arrival(), value))
        } else {
            (b, arrived)
        };
        b.join_carrying(arrived.arrivals, arrived.values, join, ty, span)
    }

    /// Each branch of an `if` in turn, and what reaches the end of one.
    #[verifier::opaque]
    pub open spec fn if_values(
        self,
        branches: Seq<IfBranch>,
        ty: TyView,
        span: Span,
        deeper: Deeper<'a>,
        count: nat,
    ) -> (BodyView<'a>, ArrivedView)
        decreases count,
    {
        if count == 0 {
            (self, none_arrived_view())
        } else {
            let (b, arrived) = self.if_values(branches, ty, span, deeper, (count - 1) as nat);
            let i = (count - 1) as nat;
            let (b, condition) = b.expr(branches[i as int].condition, Some(TyView::Bool), deeper);
            let (b, then) = b.add_block(span);
            let (b, next) = b.add_block(span);
            let b = b.branch(condition, then, next);
            let saved = b.saved_defs();
            let b = b.switch_to(then);
            let (b, value) = b.expr(branches[i as int].value, Some(ty), deeper);
            let (b, arrived) = if !b.left {
                let arrived = more_arrived_view(arrived, b.arrival(), value);
                (b, arrived)
            } else {
                (b, arrived)
            };
            let b = b.restore(saved);
            let b = b.switch_to(next);
            (b, arrived)
        }
    }
}

impl<'a> Body<'a> {
    /// Lowers `expr`, and gives back the value it produces, at what context asks
    /// for.
    pub fn expr_within(
        &mut self,
        expr: &'a Expr,
        wanted: Option<&Ty>,
        fuel: u32,
    ) -> (produced: Value)
        ensures
            (final(self)@, produced) == old(self)@.expr_within(
                *expr,
                opt_ty(wanted),
                deeper(fuel as nat),
            ),
        decreases fuel, 15nat, 0nat,
    {
        proof {
            reveal(BodyView::expr_within);
        }
        let value = self.expr_value(expr, wanted, fuel);
        match wanted {
            Some(ty) => {
                self.coerce(value, ty, expr.span)
            },
            None => {
                value
            },
        }
    }

    /// The value an expression produces.
    pub fn expr_value(
        &mut self,
        expr: &'a Expr,
        wanted: Option<&Ty>,
        fuel: u32,
    ) -> (produced: Value)
        ensures
            (final(self)@, produced) == old(self)@.expr_value(
                *expr,
                opt_ty(wanted),
                deeper(fuel as nat),
            ),
        decreases fuel, 14nat, 0nat,
    {
        proof {
            reveal(BodyView::expr_value);
        }
        let span = expr.span;
        match &expr.kind {
            ExprKind::Nil => {
                self.emit(InstKind::Const(Const::Nil), asked_or(wanted, Ty::Nil), span)
            },
            ExprKind::Bool(value) => {
                self.emit(InstKind::Const(Const::Bool(*value)), Ty::Bool, span)
            },
            ExprKind::Integer(value) => {
                let ty = self.numeric(wanted, span);
                self.emit(InstKind::Const(Const::Int(*value)), ty, span)
            },
            ExprKind::Float(value) => {
                let ty = self.numeric(wanted, span);
                self.emit(float_const(value), ty, span)
            },
            ExprKind::Text(value) => {
                self.emit(InstKind::Const(Const::Str(value.clone())), Ty::Str, span)
            },
            ExprKind::ByteText(value) => {
                self.emit(bytes_const(value), Ty::Bytes, span)
            },
            ExprKind::Char(value) => {
                self.emit(InstKind::Const(Const::Char(*value)), Ty::Char, span)
            },
            ExprKind::Interpolation(parts) => {
                self.interpolation(parts, span, fuel)
            },
            ExprKind::Name(name) => {
                self.name(name.as_str(), wanted, span, fuel)
            },
            ExprKind::Unary { op, operand } => {
                self.unary(*op, operand, wanted, span, fuel)
            },
            ExprKind::Binary { op, op_span, left, right } => {
                self.binary(*op, *op_span, left, right, span, fuel)
            },
            ExprKind::Range { start, end, .. } => {
                self.range(start, end, span, fuel)
            },
            ExprKind::Call { callee, method, args } => {
                let args = given(args);
                self.call(callee, opt_str(method), &args, span, fuel)
            },
            ExprKind::Record { path, fields } => {
                self.record(path, fields, wanted, span, fuel)
            },
            ExprKind::Function { asynchronous, params, body } => {
                self.closure(*asynchronous, params, body, span, fuel)
            },
            ExprKind::List(values) => {
                self.list(values, wanted, span, fuel)
            },
            ExprKind::MapOf(entries) => {
                self.map(entries, wanted, span, fuel)
            },
            ExprKind::SetOf(values) => {
                self.set(values, wanted, span, fuel)
            },
            ExprKind::Index { receiver, index, optional } => {
                self.index(receiver, index, *optional, span, fuel)
            },
            ExprKind::Field { receiver, name, optional } => {
                self.field(receiver, name.as_str(), *optional, span, fuel)
            },
            ExprKind::Tuple(members) => {
                self.tuple(members, wanted, span, fuel)
            },
            ExprKind::If { branches, otherwise } => {
                self.if_expr(branches, otherwise, span, fuel)
            },
            ExprKind::Try(inner) => {
                self.propagate(inner, span, fuel)
            },
            ExprKind::Await(_) => {
                self.missing(span, "await")
            },
            // `as` converts between numeric types, and the type it converts to is the
            // type of the whole expression.
            ExprKind::Cast { value } => {
                let to = self.recorded(span);
                let value = self.expr(value, None, fuel);
                self.emit(InstKind::Convert { value, to: to.clone() }, to, span)
            },
            ExprKind::AddressOf { mutable, operand } => {
                self.address(*mutable, operand, span, fuel)
            },
            ExprKind::Error => {
                self.missing(span, "an expression that did not parse")
            },
            ExprKind::TypeTest { .. } => {
                self.missing(span, "an expression")
            },
            ExprKind::Match { .. } => {
                self.missing(span, "an expression")
            },
        }
    }

    /// A name read. One the checker proved holds something reads as what it holds.
    pub fn name(
        &mut self,
        name: &str,
        wanted: Option<&Ty>,
        span: Span,
        fuel: u32,
    ) -> (produced: Value)
        ensures
            (final(self)@, produced) == old(self)@.name(
                name@,
                opt_ty(wanted),
                span,
                deeper(fuel as nat),
            ),
        decreases fuel, 2nat, 0nat,
    {
        proof {
            reveal(BodyView::name);
        }
        match self.lookup(name) {
            Some(var) => {
                let value = self.read_var(var, span);
                let held = self.type_at(value);
                match optional_inner(&held) {
                    Some(inner) => {
                        if is_ty(&self.maybe_recorded(span), &inner) {
                            return self.emit(InstKind::Unwrap { value }, inner, span);
                        }
                        value
                    },
                    None => {
                        value
                    },
                }
            },
            None => {
                self.constant(name, wanted, span, fuel)
            },
        }
    }

    /// A unary operator. One the checker sent through a protocol is a call to the
    /// method it named, taking nothing beside the receiver.
    pub fn unary(
        &mut self,
        op: AstUnary,
        operand: &'a Expr,
        wanted: Option<&Ty>,
        span: Span,
        fuel: u32,
    ) -> (produced: Value)
        ensures
            (final(self)@, produced) == old(self)@.unary(
                op,
                *operand,
                opt_ty(wanted),
                span,
                deeper(fuel as nat),
            ),
        decreases fuel, 12nat, 0nat,
    {
        proof {
            reveal(BodyView::unary);
        }
        if self.reached(operand.span).is_some() && op != AstUnary::Not {
            let args = none_given();
            if op == AstUnary::BitNot {
                return self.call(operand, Some("bitNot"), &args, operand.span, fuel);
            }
            return self.call(operand, Some("neg"), &args, operand.span, fuel);
        }
        let ty = if op == AstUnary::Not {
            Ty::Bool
        } else {
            self.settled_type(wanted, span)
        };
        let operand = self.expr(operand, Some(&ty), fuel);
        self.emit(InstKind::Unary { op: lowered_unary(op), operand }, ty, span)
    }

    /// A range that is not counted through: its bounds, each present or not.
    pub fn range(
        &mut self,
        start: &'a Option<Box<Expr>>,
        end: &'a Option<Box<Expr>>,
        span: Span,
        fuel: u32,
    ) -> (produced: Value)
        ensures
            (final(self)@, produced) == old(self)@.range(*start, *end, span, deeper(fuel as nat)),
        decreases fuel, 2nat, 0nat,
    {
        proof {
            reveal(BodyView::range);
        }
        let ty = self.recorded(span);
        let bound = optional(range_element(&ty));
        let start = self.bound(start, &bound, span, fuel);
        let end = self.bound(end, &bound, span, fuel);
        self.emit(InstKind::MakeTuple(two(start, end)), ty, span)
    }

    /// One bound of a range.
    pub fn bound(
        &mut self,
        written: &'a Option<Box<Expr>>,
        bound: &Ty,
        span: Span,
        fuel: u32,
    ) -> (produced: Value)
        ensures
            (final(self)@, produced) == old(self)@.bound(
                *written,
                bound@,
                span,
                deeper(fuel as nat),
            ),
        decreases fuel, 1nat, 0nat,
    {
        proof {
            reveal(BodyView::bound);
        }
        match written {
            Some(value) => {
                self.expr(value, Some(bound), fuel)
            },
            None => {
                self.emit(InstKind::Const(Const::Nil), bound.clone(), span)
            },
        }
    }

    /// A tuple, each member at its own type.
    pub fn tuple(
        &mut self,
        members: &'a Vec<Expr>,
        wanted: Option<&Ty>,
        span: Span,
        fuel: u32,
    ) -> (produced: Value)
        ensures
            (final(self)@, produced) == old(self)@.tuple(
                members@,
                opt_ty(wanted),
                span,
                deeper(fuel as nat),
            ),
        decreases fuel, 2nat, 0nat,
    {
        proof {
            reveal(BodyView::tuple);
        }
        if members.len() == 0 {
            return self.unit(span);
        }
        let types = match tuple_asked(wanted) {
            Some(types) => {
                Some(types)
            },
            None => {
                let recorded = self.recorded(span);
                tuple_members(&recorded)
            },
        };
        let types = match types {
            Some(types) => types,
            None => {
                return self.missing(span, "a tuple whose members have no type");
            },
        };
        if types.len() != members.len() {
            return self.missing(span, "a tuple of a length the checker did not agree on");
        }
        let values = self.each_member(members, &types, fuel);
        self.emit(InstKind::MakeTuple(values), Ty::Tuple(types), span)
    }

    /// What each member of a tuple produces, at its own type.
    pub fn each_member(
        &mut self,
        members: &'a Vec<Expr>,
        types: &Vec<Ty>,
        fuel: u32,
    ) -> (values: Vec<Value>)
        ensures
            (final(self)@, values@) == old(self)@.each_member(
                members@,
                tys(types@),
                deeper(fuel as nat),
                members@.len(),
            ),
        decreases fuel, 1nat, members@.len(),
    {
        let ghost start = self@;
        let mut values: Vec<Value> = Vec::new();
        let mut i: usize = 0;
        proof {
            reveal(BodyView::each_member);
        }
        while i < members.len()
            invariant
                i <= members.len(),
                (self@, values@) == start.each_member(
                    members@,
                    tys(types@),
                    deeper(fuel as nat),
                    i as nat,
                ),
            decreases members.len() - i,
        {
            proof {
                reveal(BodyView::each_member);
            }
            let value = self.expr(&members[i], Some(&ty_or_never(types, i)), fuel);
            values.push(value);
            i += 1;
        }
        values
    }

    /// `&x`: a binding whose address is taken lives in a slot, and this is that
    /// slot's address.
    pub fn address(
        &mut self,
        mutable: bool,
        operand: &'a Expr,
        span: Span,
        fuel: u32,
    ) -> (produced: Value)
        ensures
            (final(self)@, produced) == old(self)@.address(
                mutable,
                *operand,
                span,
                deeper(fuel as nat),
            ),
        decreases fuel, 2nat, 0nat,
    {
        proof {
            reveal(BodyView::address);
        }
        match &operand.kind {
            ExprKind::Name(name) => {
                let slot = match self.slot_named(name.as_str()) {
                    Some(slot) => slot,
                    None => {
                        return self.missing(span, "an address of a binding a pattern bound");
                    },
                };
                let ty = self.recorded(span);
                self.emit(InstKind::AddressOf { mutable, slot }, ty, span)
            },
            ExprKind::Field { receiver, name, optional } => {
                if *optional {
                    return self.missing(span, "an address of an element");
                }
                let object = self.expr(receiver, None, fuel);
                let object = self.settled(object, operand.span);
                let held = self.type_at(object);
                let field = match self.field_index(&held, name.as_str()) {
                    Some(field) => field,
                    None => {
                        return self.missing(
                            span,
                            "an address of a member that is not a stored field",
                        );
                    },
                };
                let ty = self.recorded(span);
                self.emit(InstKind::FieldAddress { mutable, object, field }, ty, span)
            },
            _ => {
                self.missing(span, "an address of an element")
            },
        }
    }

    /// An interpolated string formats its expressions and joins every part from left
    /// to right.
    pub fn interpolation(
        &mut self,
        parts: &'a Vec<InterpolationPart>,
        span: Span,
        fuel: u32,
    ) -> (produced: Value)
        ensures
            (final(self)@, produced) == old(self)@.interpolation(parts@, span, deeper(fuel as nat)),
        decreases fuel, 2nat, 0nat,
    {
        proof {
            reveal(BodyView::interpolation);
        }
        let first = self.emit(InstKind::Const(Const::Str("".to_owned())), Ty::Str, span);
        let joined = self.interpolated(first, parts, span, fuel);
        value_or(joined, first)
    }

    /// What the parts joined so far come to.
    pub fn interpolated(
        &mut self,
        first: Value,
        parts: &'a Vec<InterpolationPart>,
        span: Span,
        fuel: u32,
    ) -> (joined: Option<Value>)
        ensures
            (final(self)@, joined) == old(self)@.interpolated(
                first,
                parts@,
                span,
                deeper(fuel as nat),
                parts@.len(),
            ),
        decreases fuel, 1nat, parts@.len(),
    {
        let ghost start = self@;
        let mut joined: Option<Value> = None;
        let mut i: usize = 0;
        proof {
            reveal(BodyView::interpolated);
        }
        while i < parts.len()
            invariant
                i <= parts.len(),
                (self@, joined) == start.interpolated(
                    first,
                    parts@,
                    span,
                    deeper(fuel as nat),
                    i as nat,
                ),
            decreases parts.len() - i,
        {
            proof {
                reveal(BodyView::interpolated);
            }
            let next = match &parts[i] {
                InterpolationPart::Text(text) => {
                    self.emit(InstKind::Const(Const::Str(text.clone())), Ty::Str, span)
                },
                InterpolationPart::Expr(expr) => {
                    let value = self.expr(expr, None, fuel);
                    self.display(value, expr.span)
                },
            };
            let both = self.emit(
                InstKind::Binary {
                    op: BinaryOp::Concat,
                    left: value_or(joined, first),
                    right: next,
                },
                Ty::Str,
                span,
            );
            joined = Some(both);
            i += 1;
        }
        joined
    }

    /// `?` hands an error back to the caller, and goes on with what it holds
    /// otherwise.
    pub fn propagate(&mut self, inner: &'a Expr, span: Span, fuel: u32) -> (produced: Value)
        ensures
            (final(self)@, produced) == old(self)@.propagate(*inner, span, deeper(fuel as nat)),
        decreases fuel, 4nat, 0nat,
    {
        proof {
            reveal(BodyView::propagate);
        }
        let result = self.expr(inner, None, fuel);
        let held = self.type_at(result);
        let parts = match args_of(&held, Builtin::Result) {
            Some(parts) => parts,
            None => {
                return self.missing(span, "`?` on a value that is not a `Result`");
            },
        };
        let value_ty = match ty_at(&parts, 0) {
            Some(value_ty) => value_ty,
            None => {
                return self.missing(span, "a `Result` without both type arguments");
            },
        };
        let error_ty = match ty_at(&parts, 1) {
            Some(error_ty) => error_ty,
            None => {
                return self.missing(span, "a `Result` without both type arguments");
            },
        };
        let declared = self.declared.clone();
        let given = match args_of(&declared, Builtin::Result) {
            Some(given) => given,
            None => {
                return self.missing(span, "`?` in a function that does not return `Result`");
            },
        };
        let given_error = match ty_at(&given, 1) {
            Some(given_error) => given_error,
            None => {
                return self.missing(span, "a returned `Result` without an error type");
            },
        };
        let failed = self.add_block(span);
        let succeeded = self.add_block(span);
        self.error_test(result, failed, succeeded, span);
        self.switch_to(failed);
        let error = self.payload(result, 1, error_ty, span);
        let error = self.propagated_error(error, &given_error, span);
        let back = self.variant_with(&declared, 1, error, span);
        self.unwind_from(0, fuel);
        let back = self.returned(back, span);
        self.terminate(Terminator::Return(back));
        self.switch_to(succeeded);
        self.payload(result, 0, value_ty, span)
    }

    /// The error a caller is handed, converted where it takes another.
    pub fn propagated_error(&mut self, error: Value, wanted: &Ty, span: Span) -> (produced: Value)
        ensures
            (final(self)@, produced) == old(self)@.propagated_error(error, wanted@, span),
    {
        proof {
            reveal(BodyView::propagated_error);
        }
        let held = self.type_at(error);
        if same_ty(&held, wanted) {
            return error;
        }
        let declaration = match self.reached(span) {
            Some(declaration) => declaration,
            None => {
                return self.missing(
                    span,
                    "a propagated error conversion the checker did not resolve",
                );
            },
        };
        match self.virtual_of(declaration) {
            Some(method) => {
                self.emit(
                    InstKind::CallVirtual { method, receiver: error, args: no_values() },
                    wanted.clone(),
                    span,
                )
            },
            None => {
                let reached = match self.callee_of(declaration) {
                    Some(reached) => reached,
                    None => {
                        return self.missing(span, "a propagated error conversion with no body");
                    },
                };
                if !reached.takes_self || reached.params.len() > 0 {
                    return self.missing(span, "an invalid propagated error conversion");
                }
                let type_args = match self.generic_args(span, count_of(&reached.type_params)) {
                    Some(type_args) => type_args,
                    None => {
                        return self.missing(
                            span,
                            "a propagated error conversion with unknown type arguments",
                        );
                    },
                };
                self.emit(
                    InstKind::Call { callee: reached.id, type_args, args: one(error) },
                    wanted.clone(),
                    span,
                )
            },
        }
    }

    /// A binary operator. Comparing against `nil` asks whether an optional holds
    /// anything; an operator the checker sent through a protocol is the call it
    /// named.
    pub fn binary(
        &mut self,
        op: AstBinary,
        op_span: Span,
        left: &'a Expr,
        right: &'a Expr,
        span: Span,
        fuel: u32,
    ) -> (produced: Value)
        ensures
            (final(self)@, produced) == old(self)@.binary(
                op,
                op_span,
                *left,
                *right,
                span,
                deeper(fuel as nat),
            ),
        decreases fuel, 13nat, 0nat,
    {
        proof {
            reveal(BodyView::binary);
        }
        if is_equality(op) && is_nil(right) && is_optional_ty(&self.known_type(left)) {
            return self.nil_test(op, left, span, fuel);
        }
        if is_equality(op) && is_nil(left) && is_optional_ty(&self.known_type(right)) {
            return self.nil_test(op, right, span, fuel);
        }
        if self.reached(op_span).is_some() && self.protocol(op).is_some() {
            let found = match self.protocol(op) {
                Some(found) => found,
                None => {
                    return self.missing(span, "a binary operator");
                },
            };
            return self.through_protocol(found.0, found.1, op, left, right, op_span, fuel);
        }
        match op {
            AstBinary::And => {
                self.logical(true, left, right, span, fuel)
            },
            AstBinary::Or => {
                self.logical(false, left, right, span, fuel)
            },
            AstBinary::Coalesce => {
                self.coalesce(left, right, span, fuel)
            },
            _ => {
                let lowered = match binary_op(op) {
                    Some(lowered) => lowered,
                    None => {
                        return self.missing(span, "a binary operator");
                    },
                };
                let operand = self.operand_type(left, right);
                // Arithmetic on one type produces it, which is the answer where the
                // checker had no name for the operands.
                let ty = or_else(self.maybe_recorded(span), operand.clone());
                // The left operand is evaluated first.
                let left = self.expr(left, Some(&operand), fuel);
                let right = self.expr(right, Some(&operand), fuel);
                self.emit(InstKind::Binary { op: lowered, left, right }, ty, span)
            },
        }
    }

    /// Whether an optional holds anything, or nothing.
    pub fn nil_test(
        &mut self,
        op: AstBinary,
        value: &'a Expr,
        span: Span,
        fuel: u32,
    ) -> (produced: Value)
        ensures
            (final(self)@, produced) == old(self)@.nil_test(op, *value, span, deeper(fuel as nat)),
        decreases fuel, 1nat, 0nat,
    {
        proof {
            reveal(BodyView::nil_test);
        }
        let value = self.expr(value, None, fuel);
        let held = self.emit(InstKind::IsSome { value }, Ty::Bool, span);
        if op == AstBinary::NotEqual {
            return held;
        }
        self.emit(InstKind::Unary { op: UnaryOp::Not, operand: held }, Ty::Bool, span)
    }

    /// `a + b` is `a:add(b)`, and the four ordering operators are one `compare`
    /// against zero, which is what keeps them consistent.
    pub fn through_protocol(
        &mut self,
        protocol: &str,
        method: &str,
        op: AstBinary,
        left: &'a Expr,
        right: &'a Expr,
        span: Span,
        fuel: u32,
    ) -> (produced: Value)
        ensures
            (final(self)@, produced) == old(self)@.through_protocol(
                protocol@,
                method@,
                op,
                *left,
                *right,
                span,
                deeper(fuel as nat),
            ),
        decreases fuel, 12nat, 0nat,
    {
        proof {
            reveal(BodyView::through_protocol);
        }
        let args = given_one(right);
        let called = self.call(left, Some(method), &args, span, fuel);
        if same_text(protocol, "Eq") && op == AstBinary::NotEqual {
            return self.emit(InstKind::Unary { op: UnaryOp::Not, operand: called }, Ty::Bool, span);
        }
        if same_text(protocol, "Comparable") {
            let lowered = match binary_op(op) {
                Some(lowered) => lowered,
                None => {
                    return self.missing(span, "an ordering operator");
                },
            };
            let zero = self.emit(InstKind::Const(Const::Int(0)), Ty::integer(), span);
            return self.emit(
                InstKind::Binary { op: lowered, left: called, right: zero },
                Ty::Bool,
                span,
            );
        }
        called
    }

    /// `and` does not evaluate its right operand where the left is false, and `or`
    /// does not where the left is true.
    pub fn logical(
        &mut self,
        all: bool,
        left: &'a Expr,
        right: &'a Expr,
        span: Span,
        fuel: u32,
    ) -> (produced: Value)
        ensures
            (final(self)@, produced) == old(self)@.logical(
                all,
                *left,
                *right,
                span,
                deeper(fuel as nat),
            ),
        decreases fuel, 1nat, 0nat,
    {
        proof {
            reveal(BodyView::logical);
        }
        let left = self.expr(left, Some(&Ty::Bool), fuel);
        let rest = self.add_block(span);
        let join = self.add_block(span);
        let settled = self.emit(InstKind::Const(Const::Bool(!all)), Ty::Bool, span);
        if all {
            self.terminate(
                Terminator::Branch {
                    condition: left,
                    then: Target::to(rest),
                    otherwise: Target::new(join, one(settled)),
                },
            );
        } else {
            self.terminate(
                Terminator::Branch {
                    condition: left,
                    then: Target::new(join, one(settled)),
                    otherwise: Target::to(rest),
                },
            );
        }
        self.switch_to(rest);
        let right = self.expr(right, Some(&Ty::Bool), fuel);
        self.jump_with(join, right);
        self.switch_to(join);
        self.add_block_param(join, Ty::Bool, span)
    }

    /// `??` takes the left where it holds a value, and does not evaluate the right at
    /// all.
    pub fn coalesce(
        &mut self,
        left: &'a Expr,
        right: &'a Expr,
        span: Span,
        fuel: u32,
    ) -> (produced: Value)
        ensures
            (final(self)@, produced) == old(self)@.coalesce(
                *left,
                *right,
                span,
                deeper(fuel as nat),
            ),
        decreases fuel, 1nat, 0nat,
    {
        proof {
            reveal(BodyView::coalesce);
        }
        let ty = self.recorded(span);
        let left = self.expr(left, Some(&optional(ty.clone())), fuel);
        let ways = self.split_optional(left, span);
        self.give_present(left, &ty, ways, span);
        self.switch_to(ways.otherwise);
        let fallback = self.expr(right, Some(&ty), fuel);
        self.jump_with(ways.join, fallback);
        self.switch_to(ways.join);
        self.add_block_param(ways.join, ty, span)
    }

    /// Gives what is there in `left`. Where the whole may be nothing too, that is `left`
    /// as it is.
    pub fn give_present(&mut self, left: Value, ty: &Ty, ways: Ways, span: Span)
        ensures
            final(self)@ == old(self)@.give_present(left, ty@, ways, span),
    {
        proof {
            reveal(BodyView::give_present);
        }
        self.switch_to(ways.found);
        let inside = if optional_inner(ty).is_some() {
            left
        } else {
            self.emit(InstKind::Unwrap { value: left }, ty.clone(), span)
        };
        self.jump_with(ways.join, inside);
    }

    /// The expression form of `if`, whose branches each produce the value the `if` is
    /// used at.
    pub fn if_expr(
        &mut self,
        branches: &'a Vec<IfBranch>,
        otherwise: &'a Expr,
        span: Span,
        fuel: u32,
    ) -> (produced: Value)
        ensures
            (final(self)@, produced) == old(self)@.if_expr(
                branches@,
                *otherwise,
                span,
                deeper(fuel as nat),
            ),
        decreases fuel, 3nat, 0nat,
    {
        proof {
            reveal(BodyView::if_expr);
        }
        let ty = self.recorded(span);
        let join = self.add_block(span);
        let arrived = self.if_values(branches, &ty, span, fuel);
        let value = self.expr(otherwise, Some(&ty), fuel);
        let arrived = if !self.has_left() {
            more_arrived(arrived, self.arrival(), value)
        } else {
            arrived
        };
        self.join_carrying(arrived.arrivals, arrived.values, join, ty, span)
    }

    /// Each branch of an `if` in turn, and what reaches the end of one.
    pub fn if_values(
        &mut self,
        branches: &'a Vec<IfBranch>,
        ty: &Ty,
        span: Span,
        fuel: u32,
    ) -> (arrived: Arrived)
        ensures
            (final(self)@, arrived@) == old(self)@.if_values(
                branches@,
                ty@,
                span,
                deeper(fuel as nat),
                branches@.len(),
            ),
        decreases fuel, 2nat, branches@.len(),
    {
        let ghost start = self@;
        let mut arrived: Arrived = none_arrived();
        let mut i: usize = 0;
        proof {
            reveal(BodyView::if_values);
        }
        while i < branches.len()
            invariant
                i <= branches.len(),
                (self@, arrived@) == start.if_values(
                    branches@,
                    ty@,
                    span,
                    deeper(fuel as nat),
                    i as nat,
                ),
            decreases branches.len() - i,
        {
            proof {
                reveal(BodyView::if_values);
            }
            let condition = self.expr(&branches[i].condition, Some(&Ty::Bool), fuel);
            let then = self.add_block(span);
            let next = self.add_block(span);
            self.branch(condition, then, next);
            let saved = self.saved_defs();
            self.switch_to(then);
            let value = self.expr(&branches[i].value, Some(ty), fuel);
            if !self.has_left() {
                arrived = more_arrived(arrived, self.arrival(), value);
            }
            self.restore(&saved);
            self.switch_to(next);
            i += 1;
        }
        arrived
    }
}

} // verus!
