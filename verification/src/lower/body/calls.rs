//! Lowering calls and closures.

use vstd::prelude::*;

use crate::ast::{Block, Expr, ExprKind, FunctionBody, Param};
use crate::inst::{InstKind, InstKindView, MethodId, Terminator, TerminatorView, Trap, Value, one};
use crate::program::{BlockView, FuncId, Function, FunctionView, id_limit, views};
use crate::lower::names::{Seeking, assigned_in, in_body};
use crate::span::Span;
use crate::text::{concat, concatenated, decimal, names, number};
use crate::ty::{Builtin, Ty, TyView, tys};

use super::held::Held;
use super::kinds::{
    args_of, args_of_view, builtin_over, builtin_over_view, function_of, function_of_view, index_id,
    index_id_view, no_tys, opt_text, same_ty, same_ty_view, thrown_or, thrown_or_view, ty_at,
    ty_at_view,
};
use super::asked::{
    declared_result, declared_result_view, first_of, first_of_view, is_function, is_function_view,
    pointed, pointed_view, received, received_view, result_tag, result_tag_view,
};
use super::lookups::{Captures, CapturesView};
use super::deeper::{Deeper, deeper};
use super::given::{
    Bound, Given, any_named, any_named_view, body_span, body_span_view, bound_params,
    bound_params_view, count_of, count_of_view, default_at, default_at_view, either, entry_values,
    entry_values_view, fill, fill_view, given, is_variadic, is_variadic_view, no_names, or_else,
    or_else_view, put_at, put_at_view, rest_of, rest_of_view, slots_of, slots_of_view, supplied,
    supplied_view, task_result, task_result_view, ty_or_never, ty_or_never_view, value_at,
    value_at_view, variadic_at, variadic_at_view, wanted_at, wanted_at_view, wanted_types,
    wanted_types_view, written_name, written_name_view,
};
use super::{
    Body, BodyView, Callee, CalleeView, Cleanup, Context, ContextView, deferred_views, made_views,
    scope_view, scope_views,
};

verus! {

/// An enum and one of its variants, by what the enum is.
pub open spec fn maybe_built(found: Option<(Ty, u32)>) -> Option<(TyView, u32)> {
    match found {
        Some(held) => Some((held.0@, held.1)),
        None => None,
    }
}

/// What the source says a function gives back. Where an exception can escape it,
/// its result is that or what was thrown.
pub open spec fn declared_of(throws: bool, result: TyView) -> TyView {
    match args_of_view(result, Builtin::Result) {
        Some(args) => if throws {
            match ty_at_view(args, 0) {
                Some(ty) => ty,
                None => TyView::Unit,
            }
        } else {
            result
        },
        None => result,
    }
}

/// What a closure is called.
pub open spec fn closure_name(outer: Seq<char>, id: FuncId) -> Seq<char> {
    concatenated(seq![outer, "#"@, decimal(id.0 as nat)])
}

/// The types of what a closure captured.
pub open spec fn captured_types<'a>(body: BodyView<'a>, vars: Seq<u32>) -> Seq<TyView> {
    Seq::new(vars.len(), |i: int| body.type_at(body.def_of(vars[i])))
}

impl<'a> BodyView<'a> {
    /// Lowers a call: to a builtin, a constructor, a function value, a pointer's
    /// method, or the declaration the checker resolved.
    #[verifier::opaque]
    pub open spec fn call(
        self,
        callee: Expr,
        method: Option<Seq<char>>,
        args: Seq<Given<'a>>,
        span: Span,
        deeper: Deeper<'a>,
    ) -> (BodyView<'a>, Value) {
        let b = self;
        match b.builtin_at(span) {
            Some(builtin) => {
                b.builtin(builtin, callee, args, span, deeper)
            },
            None => {
                let (b, construction) = b.construction(callee, span);
                match construction {
                    Some(built) => {
                        b.construct(built.0, built.1, args, span, deeper)
                    },
                    None => {
                        b.call_resolved(callee, method, args, span, deeper)
                    },
                }
            },
        }
    }

    /// The enum and the variant a call builds a value of. A variant with a payload
    /// is written like a call and builds a value, so it reaches no function and the
    /// checker recorded none.
    #[verifier::opaque]
    pub open spec fn construction(
        self,
        callee: Expr,
        span: Span,
    ) -> (BodyView<'a>, Option<(TyView, u32)>) {
        let b = self;
        match callee.kind {
            ExprKind::Field { receiver, name, .. } => {
                match written_name_view(*receiver) {
                    Some(written) => {
                        if b.lookup(written@).is_some() {
                            (b, None)
                        } else {
                            match result_tag_view(written@, name@) {
                                Some(tag) => {
                                    let (b, ty) = b.recorded(span);
                                    if args_of_view(ty, Builtin::Result).is_some() {
                                        (b, Some((ty, tag)))
                                    } else {
                                        b.variant_called(name@, span)
                                    }
                                },
                                None => {
                                    b.variant_called(name@, span)
                                },
                            }
                        }
                    },
                    None => (b, None),
                }
            },
            _ => {
                (b, None)
            },
        }
    }

    /// The variant that `name` names of what the checker recorded at `span`.
    #[verifier::opaque]
    pub open spec fn variant_called(
        self,
        name: Seq<char>,
        span: Span,
    ) -> (BodyView<'a>, Option<(TyView, u32)>) {
        let b = self;
        let (b, ty) = b.recorded(span);
        match b.variant_of(ty, name) {
            Some(tag) => {
                (b, Some((ty, tag)))
            },
            None => {
                (b, None)
            },
        }
    }

    /// Lowers a call that builds no value. A function value is called through the
    /// value, and reaches no declaration; a raw pointer's methods reach none either.
    #[verifier::opaque]
    pub open spec fn call_resolved(
        self,
        callee: Expr,
        method: Option<Seq<char>>,
        args: Seq<Given<'a>>,
        span: Span,
        deeper: Deeper<'a>,
    ) -> (BodyView<'a>, Value) {
        let b = self;
        let known = b.known_type(callee);
        if method.is_none() && b.reached(span).is_none() && is_function_view(first_of_view(known, b.maybe_recorded(callee.span))) {
            b.through(callee, args, span, deeper)
        } else {
            match pointed_view(method, known) {
                Some(found) => {
                    b.memory_method(callee, found.0, found.1, args, span, deeper)
                },
                None => {
                    match b.reached(span) {
                        Some(declaration) => {
                            let (b, receiver) = if method.is_some() {
                                let (b, value) = b.expr(callee, None, deeper);
                                (b, Some(value))
                            } else {
                                (b, None)
                            };
                            b.call_declared(declaration, receiver, args, span, deeper)
                        },
                        None => b.missing(span, "a call the checker did not resolve"@),
                    }
                },
            }
        }
    }

    /// A call to the declaration the checker resolved at `span`, with its receiver
    /// already evaluated where it has one.
    #[verifier::opaque]
    pub open spec fn call_declared(
        self,
        declaration: Span,
        receiver: Option<Value>,
        args: Seq<Given<'a>>,
        span: Span,
        deeper: Deeper<'a>,
    ) -> (BodyView<'a>, Value) {
        let b = self;
        match b.virtual_of(declaration) {
            Some(method) => {
                b.dispatch(method, receiver, args, span, deeper)
            },
            None => {
                match b.callee_of(declaration) {
                    Some(reached) => {
                        b.call_reached(reached, receiver, args, span, deeper)
                    },
                    None => b.missing(span, "a call to a function with no body"@),
                }
            },
        }
    }

    /// A call to a function: an argument for every parameter, at the type that
    /// parameter takes, and a default where the call leaves the argument out. A
    /// generic call carries what fills each of the callee's type parameters.
    #[verifier::opaque]
    pub open spec fn call_reached(
        self,
        reached: CalleeView<'a>,
        receiver: Option<Value>,
        args: Seq<Given<'a>>,
        span: Span,
        deeper: Deeper<'a>,
    ) -> (BodyView<'a>, Value) {
        let b = self;
        match b.generic_args(span, count_of_view(reached.type_params)) {
            Some(type_args) => {
                let wanted = wanted_types_view(reached, type_args);
                let variadic = variadic_at_view(reached);
                let slots = slots_of_view(reached, args);
                let (b, values) = b.given_values(args, slots, wanted, deeper, args.len());
                let filled = fill_view(wanted.len(), variadic, slots, values);
                let limit = supplied_view(reached, variadic, filled);
                let (b, passed) = b.supply(
                    reached,
                    variadic,
                    filled,
                    wanted,
                    limit,
                    deeper,
                    filled.len(),
                );
                if limit < filled.len() {
                    b.missing(span, "a call with no argument for a parameter"@)
                } else {
                    if reached.takes_self && receiver.is_none() {
                        b.missing(span, "a method call with no receiver"@)
                    } else {
                        let (b, passed) = match variadic {
                            Some(slot) => {
                                let element = ty_or_never_view(wanted, slot as nat);
                                let rest = rest_of_view(variadic, slots, values);
                                let ty = builtin_over_view(Builtin::FrozenList, element);
                                let (b, list) = b.emit(
                                    InstKindView::MakeList { element, values: rest },
                                    ty,
                                    span,
                                );
                                (b, put_at_view(passed, slot, list))
                            },
                            None => {
                                (b, passed)
                            },
                        };
                        let passed = received_view(reached.takes_self, receiver, passed);
                        b.finish_call(
                            InstKindView::Call { callee: reached.id, type_args, args: passed },
                            reached.throws,
                            reached.asynchronous,
                            span,
                            deeper,
                        )
                    }
                }
            },
            None => b.missing(span, "a call whose type arguments are not all known"@),
        }
    }

    /// What a call gives back. One that may throw says which happened, and an
    /// asynchronous one gives back a task.
    #[verifier::opaque]
    pub open spec fn finish_call(
        self,
        kind: InstKindView,
        throws: bool,
        asynchronous: bool,
        span: Span,
        deeper: Deeper<'a>,
    ) -> (BodyView<'a>, Value) {
        let b = self;
        let (b, result) = b.recorded(span);
        b.finish_typed(kind, throws, asynchronous, result, span, deeper)
    }

    /// The same, for a result that is known.
    #[verifier::opaque]
    pub open spec fn finish_typed(
        self,
        kind: InstKindView,
        throws: bool,
        asynchronous: bool,
        result: TyView,
        span: Span,
        deeper: Deeper<'a>,
    ) -> (BodyView<'a>, Value) {
        let b = self;
        if asynchronous {
            match task_result_view(result) {
                Some(inner) => {
                    if throws {
                        let (b, produced) = b.emit(kind, thrown_or_view(inner), span);
                        b.completed_task(produced, result, span)
                    } else {
                        let (b, produced) = b.emit(kind, inner, span);
                        let (b, completed) = b.completed_result(produced, inner, span);
                        b.completed_task(completed, result, span)
                    }
                },
                None => b.missing(span, "an async call without a task result"@),
            }
        } else {
            if throws {
                let (b, produced) = b.emit(kind, thrown_or_view(result), span);
                b.caught_or_raised(produced, result, span, deeper)
            } else {
                b.emit(kind, result, span)
            }
        }
    }

    /// What each argument produces, at the type of the parameter it fills.
    #[verifier::opaque]
    pub open spec fn given_values(
        self,
        args: Seq<Given<'a>>,
        slots: Seq<Option<usize>>,
        wanted: Seq<TyView>,
        deeper: Deeper<'a>,
        count: nat,
    ) -> (BodyView<'a>, Seq<Value>)
        decreases count,
    {
        if count == 0 {
            (self, Seq::empty())
        } else {
            let (b, values) = self.given_values(args, slots, wanted, deeper, (count - 1) as nat);
            let i = (count - 1) as nat;
            let (b, value) = b.stored(
                *args[i as int].value,
                wanted_at_view(wanted, slots, i),
                deeper,
            );
            let values = values.push(value);
            (b, values)
        }
    }

    /// What the first `limit` parameters take: what fills them, or their default.
    #[verifier::opaque]
    pub open spec fn supply(
        self,
        reached: CalleeView<'a>,
        variadic: Option<usize>,
        filled: Seq<Option<Value>>,
        wanted: Seq<TyView>,
        limit: nat,
        deeper: Deeper<'a>,
        count: nat,
    ) -> (BodyView<'a>, Seq<Value>)
        decreases count,
    {
        if count == 0 {
            (self, Seq::empty())
        } else {
            let (b, values) = self.supply(reached, variadic, filled, wanted, limit, deeper, (count - 1) as nat);
            let i = (count - 1) as nat;
            let (b, values) = if i < limit {
                let (b, value) = match filled[i as int] {
                    Some(held) => {
                        (b, held)
                    },
                    None => {
                        let (b, value) = match default_at_view(reached, i) {
                            Some(default) => {
                                let (b, value) = if is_variadic_view(variadic, i) {
                                    (b, Value(0))
                                } else {
                                    b.stored(*default, Some(ty_or_never_view(wanted, i)), deeper)
                                };
                                (b, value)
                            },
                            None => {
                                (b, Value(0))
                            },
                        };
                        (b, value)
                    },
                };
                let values = values.push(value);
                (b, values)
            } else {
                (b, values)
            };
            (b, values)
        }
    }

    /// A call through a value calls whatever it holds, which is a closure or a
    /// function passed as one. What it gives back is what the function type says.
    #[verifier::opaque]
    pub open spec fn through(
        self,
        callee: Expr,
        args: Seq<Given<'a>>,
        span: Span,
        deeper: Deeper<'a>,
    ) -> (BodyView<'a>, Value) {
        let b = self;
        let (b, value) = b.expr(callee, None, deeper);
        let held = b.type_at(value);
        match function_of_view(held) {
            Some(shape) => {
                if args.len() != shape.params.len() || any_named_view(args) {
                    b.missing(span, "a call through a value that does not line up"@)
                } else {
                    let (b, passed) = b.pass_each(args, shape.params, deeper, args.len());
                    let declared = declared_result_view(shape.asynchronous, shape.result);
                    let result = or_else_view(b.maybe_recorded(span), declared);
                    b.finish_typed(
                        InstKindView::CallIndirect { callee: value, args: passed },
                        true,
                        shape.asynchronous,
                        result,
                        span,
                        deeper,
                    )
                }
            },
            None => b.missing(span, "a call through something that is not a function"@),
        }
    }

    /// What each argument produces, at the type in its position.
    #[verifier::opaque]
    pub open spec fn pass_each(
        self,
        args: Seq<Given<'a>>,
        types: Seq<TyView>,
        deeper: Deeper<'a>,
        count: nat,
    ) -> (BodyView<'a>, Seq<Value>)
        decreases count,
    {
        if count == 0 {
            (self, Seq::empty())
        } else {
            let (b, values) = self.pass_each(args, types, deeper, (count - 1) as nat);
            let i = (count - 1) as nat;
            let (b, value) = b.stored(
                *args[i as int].value,
                Some(ty_or_never_view(types, i)),
                deeper,
            );
            let values = values.push(value);
            (b, values)
        }
    }

    /// A call through an interface finds its implementation at runtime, until
    /// devirtualization proves there is only one.
    #[verifier::opaque]
    pub open spec fn dispatch(
        self,
        method: MethodId,
        receiver: Option<Value>,
        args: Seq<Given<'a>>,
        span: Span,
        deeper: Deeper<'a>,
    ) -> (BodyView<'a>, Value) {
        let b = self;
        match receiver {
            Some(object) => {
                if any_named_view(args) {
                    b.missing(span, "an interface call with named arguments"@)
                } else {
                    let (b, passed) = b.pass_plain(args, deeper, args.len());
                    let throws = b.method_throws(method);
                    let asynchronous = b.method_waits(method);
                    b.finish_call(
                        InstKindView::CallVirtual { method, receiver: object, args: passed },
                        throws,
                        asynchronous,
                        span,
                        deeper,
                    )
                }
            },
            None => b.missing(span, "an interface call with no receiver"@),
        }
    }

    /// What each argument produces.
    #[verifier::opaque]
    pub open spec fn pass_plain(
        self,
        args: Seq<Given<'a>>,
        deeper: Deeper<'a>,
        count: nat,
    ) -> (BodyView<'a>, Seq<Value>)
        decreases count,
    {
        if count == 0 {
            (self, Seq::empty())
        } else {
            let (b, values) = self.pass_plain(args, deeper, (count - 1) as nat);
            let i = (count - 1) as nat;
            let (b, value) = b.stored(*args[i as int].value, None, deeper);
            let values = values.push(value);
            (b, values)
        }
    }

    /// A closure is a function of the program, plus the values it captured from the
    /// scope it was written in.
    #[verifier::opaque]
    pub open spec fn closure(
        self,
        asynchronous: bool,
        params: Seq<Param>,
        body: FunctionBody,
        span: Span,
        deeper: Deeper<'a>,
    ) -> (BodyView<'a>, Value) {
        let b = self;
        let (b, ty) = b.recorded(span);
        match function_of_view(ty) {
            Some(shape) => {
                if shape.asynchronous != asynchronous {
                    b.missing(span, "a closure whose async type does not match its body"@)
                } else {
                    if shape.params.len() != params.len() {
                        b.missing(span, "a closure of a shape the checker did not agree on"@)
                    } else {
                        match b.captures(body) {
                            Some(captures) => {
                                if b.any_slot(captures.vars) {
                                    b.missing(
                                        span,
                                        "a closure capturing a binding whose address is taken"@,
                                    )
                                } else {
                                    let held = b.defs_of(captures.vars);
                                    let (b, made) = b.lower_closure(
                                        ty,
                                        captures,
                                        params,
                                        body,
                                        span,
                                        deeper,
                                    );
                                    match made {
                                        Some(func) => {
                                            b.emit(
                                                InstKindView::MakeClosure { func, captures: held },
                                                ty,
                                                span,
                                            )
                                        },
                                        None => {
                                            b.missing(span, "a program too large to lower"@)
                                        },
                                    }
                                }
                            },
                            None => b.missing(span, "a closure capturing a binding something assigns to"@),
                        }
                    }
                }
            },
            None => b.missing(span, "a closure whose type the checker did not work out"@),
        }
    }

    /// Binds what a body is entered with, and lowers it into the function.
    #[verifier::opaque]
    pub open spec fn lower_into(
        self,
        closure: bool,
        captured: Seq<Seq<char>>,
        types: Seq<TyView>,
        bindings: Seq<Bound<'a>>,
        body: FunctionBody,
        deeper: Deeper<'a>,
    ) -> BodyView<'a> {
        let b = self;
        let span = body_span_view(body);
        let b = b.enter(closure, captured, types, bindings, span, deeper);
        let b = match body {
            FunctionBody::Block(block) => {
                let b = b.block(block, deeper);
                b
            },
            FunctionBody::Expr(value) => {
                let b = b.open();
                let b = b.ret(Some(&value), value.span, deeper);
                let b = b.close(deeper);
                b
            },
        };
        let b = b.run_off(span);
        b
    }

    /// Binds what a function is entered with, and lowers its block into it.
    #[verifier::opaque]
    pub open spec fn lower_block(
        self,
        bindings: Seq<Bound<'a>>,
        block: Block,
        deeper: Deeper<'a>,
    ) -> BodyView<'a> {
        let b = self;
        let none = Seq::empty();
        let types = Seq::empty();
        let b = b.enter(false, none, types, bindings, block.span, deeper);
        let b = b.block(block, deeper);
        let b = b.run_off(block.span);
        b
    }

    /// Binds the parameters of the entry block in order. A closure takes itself first
    /// and reads what it captured out of that object.
    #[verifier::opaque]
    pub open spec fn enter(
        self,
        closure: bool,
        captured: Seq<Seq<char>>,
        types: Seq<TyView>,
        bindings: Seq<Bound<'a>>,
        span: Span,
        deeper: Deeper<'a>,
    ) -> BodyView<'a> {
        let b = self;
        let entry = b.function.entry;
        let params = b.params_of(entry);
        let b = if closure {
            let b = b.bind_captured(
                value_at_view(params, 0),
                captured,
                types,
                span,
                captured.len(),
            );
            b
        } else {
            b
        };
        let passed = entry_values_view(params, closure);
        let b = b.bind_entry(bindings, passed, span, deeper, bindings.len());
        b
    }

    /// A body that runs off its end returns nothing, which is only a value where the
    /// function writes no result.
    #[verifier::opaque]
    pub open spec fn run_off(self, span: Span) -> BodyView<'a> {
        let b = self;
        let b = if !b.left {
            let result = b.declared;
            let b = if same_ty_view(result, TyView::Unit) {
                let (b, unit) = b.unit(span);
                let (b, given) = b.returned(unit, span);
                let b = b.terminate(TerminatorView::Return(given));
                b
            } else {
                let b = b.terminate(TerminatorView::Trap(Trap::Unreachable));
                b
            };
            b
        } else {
            b
        };
        b
    }

    /// Each captured value read out of the closure and bound.
    #[verifier::opaque]
    pub open spec fn bind_captured(
        self,
        object: Value,
        captured: Seq<Seq<char>>,
        types: Seq<TyView>,
        span: Span,
        count: nat,
    ) -> BodyView<'a>
        decreases count,
    {
        if count == 0 {
            self
        } else {
            let b = self.bind_captured(object, captured, types, span, (count - 1) as nat);
            let i = (count - 1) as nat;
            let (b, value) = b.emit(
                InstKindView::GetField { object, field: index_id_view(i + 1) },
                ty_or_never_view(types, i),
                span,
            );
            let b = b.bind_name(captured[i as int], value, span);
            b
        }
    }

    /// Each parameter bound.
    #[verifier::opaque]
    pub open spec fn bind_entry(
        self,
        bindings: Seq<Bound<'a>>,
        passed: Seq<Value>,
        span: Span,
        deeper: Deeper<'a>,
        count: nat,
    ) -> BodyView<'a>
        decreases count,
    {
        if count == 0 {
            self
        } else {
            let b = self.bind_entry(bindings, passed, span, deeper, (count - 1) as nat);
            let i = (count - 1) as nat;
            let b = if i < passed.len() {
                let b = match bindings[i as int] {
                    Bound::Receiver => {
                        let b = b.bind_name("self"@, passed[i as int], span);
                        b
                    },
                    Bound::Written(binding) => {
                        let b = b.bind_value(*binding, passed[i as int], span, deeper);
                        b
                    },
                    Bound::Named(name) => {
                        let b = b.bind_name(name@, passed[i as int], span);
                        b
                    },
                };
                b
            } else {
                b
            };
            b
        }
    }
}

impl<'a> Body<'a> {
    /// Lowers a call: to a builtin, a constructor, a function value, a pointer's
    /// method, or the declaration the checker resolved.
    pub fn call(
        &mut self,
        callee: &'a Expr,
        method: Option<&str>,
        args: &Vec<Given<'a>>,
        span: Span,
        fuel: u32,
    ) -> (produced: Value)
        ensures
            (final(self)@, produced) == old(self)@.call(
                *callee,
                opt_text(method),
                args@,
                span,
                deeper(fuel as nat),
            ),
        decreases fuel, 11nat, 0nat,
    {
        proof {
            reveal(BodyView::call);
        }
        match self.builtin_at(span) {
            Some(builtin) => {
                self.builtin(builtin, callee, args, span, fuel)
            },
            None => {
                let construction = self.construction(callee, span);
                match construction {
                    Some(built) => {
                        self.construct(built.0, built.1, args, span, fuel)
                    },
                    None => {
                        self.call_resolved(callee, method, args, span, fuel)
                    },
                }
            },
        }
    }

    /// The enum and the variant a call builds a value of. A variant with a payload
    /// is written like a call and builds a value, so it reaches no function and the
    /// checker recorded none.
    pub fn construction(&mut self, callee: &'a Expr, span: Span) -> (produced: Option<(Ty, u32)>)
        ensures
            (final(self)@, maybe_built(produced)) == old(self)@.construction(*callee, span),
    {
        proof {
            reveal(BodyView::construction);
        }
        match &callee.kind {
            ExprKind::Field { receiver, name, .. } => {
                let written = match written_name(receiver) {
                    Some(written) => written,
                    None => {
                        return None;
                    },
                };
                if self.lookup(written.as_str()).is_some() {
                    return None;
                }
                match result_tag(written.as_str(), name.as_str()) {
                    Some(tag) => {
                        let ty = self.recorded(span);
                        if args_of(&ty, Builtin::Result).is_some() {
                            return Some((ty, tag));
                        }
                        self.variant_called(name.as_str(), span)
                    },
                    None => {
                        self.variant_called(name.as_str(), span)
                    },
                }
            },
            _ => {
                None
            },
        }
    }

    /// The variant that `name` names of what the checker recorded at `span`.
    pub fn variant_called(&mut self, name: &str, span: Span) -> (produced: Option<(Ty, u32)>)
        ensures
            (final(self)@, maybe_built(produced)) == old(self)@.variant_called(name@, span),
    {
        proof {
            reveal(BodyView::variant_called);
        }
        let ty = self.recorded(span);
        match self.variant_of(&ty, name) {
            Some(tag) => {
                Some((ty, tag))
            },
            None => {
                None
            },
        }
    }

    /// Lowers a call that builds no value. A function value is called through the
    /// value, and reaches no declaration; a raw pointer's methods reach none either.
    pub fn call_resolved(
        &mut self,
        callee: &'a Expr,
        method: Option<&str>,
        args: &Vec<Given<'a>>,
        span: Span,
        fuel: u32,
    ) -> (produced: Value)
        ensures
            (final(self)@, produced) == old(self)@.call_resolved(
                *callee,
                opt_text(method),
                args@,
                span,
                deeper(fuel as nat),
            ),
        decreases fuel, 10nat, 0nat,
    {
        proof {
            reveal(BodyView::call_resolved);
        }
        let known = self.known_type(callee);
        if method.is_none() && self.reached(span).is_none() && is_function(&first_of(&known, self.maybe_recorded(callee.span))) {
            return self.through(callee, args, span, fuel);
        }
        match pointed(method, &known) {
            Some(found) => {
                self.memory_method(callee, found.0, found.1, args, span, fuel)
            },
            None => {
                let declaration = match self.reached(span) {
                    Some(declaration) => declaration,
                    None => {
                        return self.missing(span, "a call the checker did not resolve");
                    },
                };
                // `receiver:method(x)` is `Type.method(receiver, x)` written short, so
                // the receiver is the first argument either way.
                let receiver = if method.is_some() {
                    let value = self.expr(callee, None, fuel);
                    Some(value)
                } else {
                    None
                };
                self.call_declared(declaration, receiver, args, span, fuel)
            },
        }
    }

    /// A call to the declaration the checker resolved at `span`, with its receiver
    /// already evaluated where it has one.
    pub fn call_declared(
        &mut self,
        declaration: Span,
        receiver: Option<Value>,
        args: &Vec<Given<'a>>,
        span: Span,
        fuel: u32,
    ) -> (produced: Value)
        ensures
            (final(self)@, produced) == old(self)@.call_declared(
                declaration,
                receiver,
                args@,
                span,
                deeper(fuel as nat),
            ),
        decreases fuel, 9nat, 0nat,
    {
        proof {
            reveal(BodyView::call_declared);
        }
        match self.virtual_of(declaration) {
            Some(method) => {
                self.dispatch(method, receiver, args, span, fuel)
            },
            None => {
                let reached = match self.callee_of(declaration) {
                    Some(reached) => reached,
                    None => {
                        return self.missing(span, "a call to a function with no body");
                    },
                };
                self.call_reached(reached, receiver, args, span, fuel)
            },
        }
    }

    /// A call to a function: an argument for every parameter, at the type that
    /// parameter takes, and a default where the call leaves the argument out. A
    /// generic call carries what fills each of the callee's type parameters.
    pub fn call_reached(
        &mut self,
        reached: &'a Callee<'a>,
        receiver: Option<Value>,
        args: &Vec<Given<'a>>,
        span: Span,
        fuel: u32,
    ) -> (produced: Value)
        ensures
            (final(self)@, produced) == old(self)@.call_reached(
                reached@,
                receiver,
                args@,
                span,
                deeper(fuel as nat),
            ),
        decreases fuel, 8nat, 0nat,
    {
        proof {
            reveal(BodyView::call_reached);
        }
        let type_args = match self.generic_args(span, count_of(&reached.type_params)) {
            Some(type_args) => type_args,
            None => {
                return self.missing(span, "a call whose type arguments are not all known");
            },
        };
        let wanted = wanted_types(reached, &type_args);
        let variadic = variadic_at(reached);
        let slots = slots_of(reached, args);
        let values = self.given_values(args, &slots, &wanted, fuel);
        let filled = fill(wanted.len(), variadic, &slots, &values);
        let limit = supplied(reached, variadic, &filled);
        let passed = self.supply(reached, variadic, &filled, &wanted, limit, fuel);
        if limit < filled.len() {
            return self.missing(span, "a call with no argument for a parameter");
        }
        if reached.takes_self && receiver.is_none() {
            return self.missing(span, "a method call with no receiver");
        }
        let passed = match variadic {
            Some(slot) => {
                let element = ty_or_never(&wanted, slot);
                let rest = rest_of(variadic, &slots, &values);
                let ty = builtin_over(Builtin::FrozenList, element.clone());
                let list = self.emit(InstKind::MakeList { element, values: rest }, ty, span);
                put_at(&passed, slot, list)
            },
            None => {
                passed
            },
        };
        let passed = received(reached.takes_self, receiver, passed);
        self.finish_call(
            InstKind::Call { callee: reached.id, type_args, args: passed },
            reached.throws,
            reached.asynchronous,
            span,
            fuel,
        )
    }

    /// What a call gives back. One that may throw says which happened, and an
    /// asynchronous one gives back a task.
    pub fn finish_call(
        &mut self,
        kind: InstKind,
        throws: bool,
        asynchronous: bool,
        span: Span,
        fuel: u32,
    ) -> (produced: Value)
        ensures
            (final(self)@, produced) == old(self)@.finish_call(
                kind@,
                throws,
                asynchronous,
                span,
                deeper(fuel as nat),
            ),
        decreases fuel, 7nat, 0nat,
    {
        proof {
            reveal(BodyView::finish_call);
        }
        let result = self.recorded(span);
        self.finish_typed(kind, throws, asynchronous, result, span, fuel)
    }

    /// The same, for a result that is known.
    pub fn finish_typed(
        &mut self,
        kind: InstKind,
        throws: bool,
        asynchronous: bool,
        result: Ty,
        span: Span,
        fuel: u32,
    ) -> (produced: Value)
        ensures
            (final(self)@, produced) == old(self)@.finish_typed(
                kind@,
                throws,
                asynchronous,
                result@,
                span,
                deeper(fuel as nat),
            ),
        decreases fuel, 6nat, 0nat,
    {
        proof {
            reveal(BodyView::finish_typed);
        }
        if asynchronous {
            let inner = match task_result(&result) {
                Some(inner) => inner,
                None => {
                    return self.missing(span, "an async call without a task result");
                },
            };
            if throws {
                let produced = self.emit(kind, thrown_or(inner.clone()), span);
                return self.completed_task(produced, &result, span);
            }
            let produced = self.emit(kind, inner.clone(), span);
            let completed = self.completed_result(produced, &inner, span);
            return self.completed_task(completed, &result, span);
        }
        if throws {
            let produced = self.emit(kind, thrown_or(result.clone()), span);
            return self.caught_or_raised(produced, result, span, fuel);
        }
        self.emit(kind, result, span)
    }

    /// What each argument produces, at the type of the parameter it fills.
    pub fn given_values(
        &mut self,
        args: &Vec<Given<'a>>,
        slots: &Vec<Option<usize>>,
        wanted: &Vec<Ty>,
        fuel: u32,
    ) -> (values: Vec<Value>)
        ensures
            (final(self)@, values@) == old(self)@.given_values(
                args@,
                slots@,
                tys(wanted@),
                deeper(fuel as nat),
                args@.len(),
            ),
        decreases fuel, 2nat, args@.len(),
    {
        let ghost start = self@;
        let mut values: Vec<Value> = Vec::new();
        let mut i: usize = 0;
        proof {
            reveal(BodyView::given_values);
        }
        while i < args.len()
            invariant
                i <= args.len(),
                (self@, values@) == start.given_values(
                    args@,
                    slots@,
                    tys(wanted@),
                    deeper(fuel as nat),
                    i as nat,
                ),
            decreases args.len() - i,
        {
            proof {
                reveal(BodyView::given_values);
            }
            let value = self.stored(args[i].value, wanted_at(wanted, slots, i), fuel);
            values.push(value);
            i += 1;
        }
        values
    }

    /// What the first `limit` parameters take: what fills them, or their default.
    pub fn supply(
        &mut self,
        reached: &'a Callee<'a>,
        variadic: Option<usize>,
        filled: &Vec<Option<Value>>,
        wanted: &Vec<Ty>,
        limit: usize,
        fuel: u32,
    ) -> (values: Vec<Value>)
        ensures
            (final(self)@, values@) == old(self)@.supply(
                reached@,
                variadic,
                filled@,
                tys(wanted@),
                limit as nat,
                deeper(fuel as nat),
                filled@.len(),
            ),
        decreases fuel, 2nat, filled@.len(),
    {
        let ghost start = self@;
        let mut values: Vec<Value> = Vec::new();
        let mut i: usize = 0;
        proof {
            reveal(BodyView::supply);
        }
        while i < filled.len()
            invariant
                i <= filled.len(),
                (self@, values@) == start.supply(
                    reached@,
                    variadic,
                    filled@,
                    tys(wanted@),
                    limit as nat,
                    deeper(fuel as nat),
                    i as nat,
                ),
            decreases filled.len() - i,
        {
            proof {
                reveal(BodyView::supply);
            }
            if i < limit {
                let value = match filled[i] {
                    Some(held) => {
                        held
                    },
                    None => {
                        let value = match default_at(reached, i) {
                            Some(default) => {
                                let value = if is_variadic(variadic, i) {
                                    Value(0)
                                } else {
                                    self.stored(default, Some(&ty_or_never(wanted, i)), fuel)
                                };
                                value
                            },
                            None => {
                                Value(0)
                            },
                        };
                        value
                    },
                };
                values.push(value);
            }
            i += 1;
        }
        values
    }

    /// A call through a value calls whatever it holds, which is a closure or a
    /// function passed as one. What it gives back is what the function type says.
    pub fn through(
        &mut self,
        callee: &'a Expr,
        args: &Vec<Given<'a>>,
        span: Span,
        fuel: u32,
    ) -> (produced: Value)
        ensures
            (final(self)@, produced) == old(self)@.through(
                *callee,
                args@,
                span,
                deeper(fuel as nat),
            ),
        decreases fuel, 8nat, 0nat,
    {
        proof {
            reveal(BodyView::through);
        }
        let value = self.expr(callee, None, fuel);
        let held = self.type_at(value);
        let shape = match function_of(&held) {
            Some(shape) => shape,
            None => {
                return self.missing(span, "a call through something that is not a function");
            },
        };
        if args.len() != shape.params.len() || any_named(args) {
            return self.missing(span, "a call through a value that does not line up");
        }
        let passed = self.pass_each(args, &shape.params, fuel);
        let declared = declared_result(shape.asynchronous, shape.result);
        let result = or_else(self.maybe_recorded(span), declared);
        self.finish_typed(
            InstKind::CallIndirect { callee: value, args: passed },
            true,
            shape.asynchronous,
            result,
            span,
            fuel,
        )
    }

    /// What each argument produces, at the type in its position.
    pub fn pass_each(
        &mut self,
        args: &Vec<Given<'a>>,
        types: &Vec<Ty>,
        fuel: u32,
    ) -> (values: Vec<Value>)
        ensures
            (final(self)@, values@) == old(self)@.pass_each(
                args@,
                tys(types@),
                deeper(fuel as nat),
                args@.len(),
            ),
        decreases fuel, 2nat, args@.len(),
    {
        let ghost start = self@;
        let mut values: Vec<Value> = Vec::new();
        let mut i: usize = 0;
        proof {
            reveal(BodyView::pass_each);
        }
        while i < args.len()
            invariant
                i <= args.len(),
                (self@, values@) == start.pass_each(
                    args@,
                    tys(types@),
                    deeper(fuel as nat),
                    i as nat,
                ),
            decreases args.len() - i,
        {
            proof {
                reveal(BodyView::pass_each);
            }
            let value = self.stored(args[i].value, Some(&ty_or_never(types, i)), fuel);
            values.push(value);
            i += 1;
        }
        values
    }

    /// A call through an interface finds its implementation at runtime, until
    /// devirtualization proves there is only one.
    pub fn dispatch(
        &mut self,
        method: MethodId,
        receiver: Option<Value>,
        args: &Vec<Given<'a>>,
        span: Span,
        fuel: u32,
    ) -> (produced: Value)
        ensures
            (final(self)@, produced) == old(self)@.dispatch(
                method,
                receiver,
                args@,
                span,
                deeper(fuel as nat),
            ),
        decreases fuel, 8nat, 0nat,
    {
        proof {
            reveal(BodyView::dispatch);
        }
        let object = match receiver {
            Some(object) => object,
            None => {
                return self.missing(span, "an interface call with no receiver");
            },
        };
        if any_named(args) {
            return self.missing(span, "an interface call with named arguments");
        }
        let passed = self.pass_plain(args, fuel);
        let throws = self.method_throws(method);
        let asynchronous = self.method_waits(method);
        self.finish_call(
            InstKind::CallVirtual { method, receiver: object, args: passed },
            throws,
            asynchronous,
            span,
            fuel,
        )
    }

    /// What each argument produces.
    pub fn pass_plain(&mut self, args: &Vec<Given<'a>>, fuel: u32) -> (values: Vec<Value>)
        ensures
            (final(self)@, values@) == old(self)@.pass_plain(
                args@,
                deeper(fuel as nat),
                args@.len(),
            ),
        decreases fuel, 2nat, args@.len(),
    {
        let ghost start = self@;
        let mut values: Vec<Value> = Vec::new();
        let mut i: usize = 0;
        proof {
            reveal(BodyView::pass_plain);
        }
        while i < args.len()
            invariant
                i <= args.len(),
                (self@, values@) == start.pass_plain(args@, deeper(fuel as nat), i as nat),
            decreases args.len() - i,
        {
            proof {
                reveal(BodyView::pass_plain);
            }
            let value = self.stored(args[i].value, None, fuel);
            values.push(value);
            i += 1;
        }
        values
    }

    /// A closure is a function of the program, plus the values it captured from the
    /// scope it was written in.
    pub fn closure(
        &mut self,
        asynchronous: bool,
        params: &'a Vec<Param>,
        body: &'a FunctionBody,
        span: Span,
        fuel: u32,
    ) -> (produced: Value)
        ensures
            (final(self)@, produced) == old(self)@.closure(
                asynchronous,
                params@,
                *body,
                span,
                deeper(fuel as nat),
            ),
        decreases fuel, 7nat, 0nat,
    {
        proof {
            reveal(BodyView::closure);
        }
        let ty = self.recorded(span);
        let shape = match function_of(&ty) {
            Some(shape) => shape,
            None => {
                return self.missing(span, "a closure whose type the checker did not work out");
            },
        };
        if shape.asynchronous != asynchronous {
            return self.missing(span, "a closure whose async type does not match its body");
        }
        if shape.params.len() != params.len() {
            return self.missing(span, "a closure of a shape the checker did not agree on");
        }
        let captures = match self.captures(body) {
            Some(captures) => captures,
            None => {
                return self.missing(span, "a closure capturing a binding something assigns to");
            },
        };
        if self.any_slot(&captures.vars) {
            return self.missing(span, "a closure capturing a binding whose address is taken");
        }
        let held = self.defs_of(&captures.vars);
        let made = self.lower_closure(&ty, &captures, params, body, span, fuel);
        match made {
            Some(func) => {
                self.emit(InstKind::MakeClosure { func, captures: held }, ty, span)
            },
            None => {
                self.missing(span, "a program too large to lower")
            },
        }
    }

    /// Binds what a body is entered with, and lowers it into the function.
    pub fn lower_into(
        &mut self,
        closure: bool,
        captured: &Vec<String>,
        types: &Vec<Ty>,
        bindings: &Vec<Bound<'a>>,
        body: &'a FunctionBody,
        fuel: u32,
    )
        ensures
            final(self)@ == old(self)@.lower_into(
                closure,
                names(captured@),
                tys(types@),
                bindings@,
                *body,
                deeper(fuel as nat),
            ),
        decreases fuel, 5nat, 0nat,
    {
        proof {
            reveal(BodyView::lower_into);
        }
        let span = body_span(body);
        self.enter(closure, captured, types, bindings, span, fuel);
        match body {
            FunctionBody::Block(block) => {
                self.block(block, fuel);
            },
            // An arrow closure is one expression, and returning it is what it does.
            FunctionBody::Expr(value) => {
                self.open();
                self.ret(Some(value), value.span, fuel);
                self.close(fuel);
            },
        }
        self.run_off(span);
    }

    /// Binds what a function is entered with, and lowers its block into it.
    pub fn lower_block(&mut self, bindings: &Vec<Bound<'a>>, block: &'a Block, fuel: u32)
        ensures
            final(self)@ == old(self)@.lower_block(bindings@, *block, deeper(fuel as nat)),
        decreases fuel, 5nat, 0nat,
    {
        proof {
            reveal(BodyView::lower_block);
        }
        let none = no_names();
        let types = no_tys();
        self.enter(false, &none, &types, bindings, block.span, fuel);
        self.block(block, fuel);
        self.run_off(block.span);
    }

    /// Binds the parameters of the entry block in order. A closure takes itself first
    /// and reads what it captured out of that object.
    pub fn enter(
        &mut self,
        closure: bool,
        captured: &Vec<String>,
        types: &Vec<Ty>,
        bindings: &Vec<Bound<'a>>,
        span: Span,
        fuel: u32,
    )
        ensures
            final(self)@ == old(self)@.enter(
                closure,
                names(captured@),
                tys(types@),
                bindings@,
                span,
                deeper(fuel as nat),
            ),
        decreases fuel, 2nat, 0nat,
    {
        proof {
            reveal(BodyView::enter);
        }
        let entry = self.function.entry;
        let params = self.params_of(entry);
        if closure {
            self.bind_captured(value_at(&params, 0), captured, types, span);
        }
        let passed = entry_values(&params, closure);
        self.bind_entry(bindings, &passed, span, fuel);
    }

    /// A body that runs off its end returns nothing, which is only a value where the
    /// function writes no result.
    pub fn run_off(&mut self, span: Span)
        ensures
            final(self)@ == old(self)@.run_off(span),
    {
        proof {
            reveal(BodyView::run_off);
        }
        if !self.has_left() {
            let result = self.declared.clone();
            if same_ty(&result, &Ty::Unit) {
                let unit = self.unit(span);
                let given = self.returned(unit, span);
                self.terminate(Terminator::Return(given));
            } else {
                self.terminate(Terminator::Trap(Trap::Unreachable));
            }
        }
    }

    /// Each captured value read out of the closure and bound.
    pub fn bind_captured(
        &mut self,
        object: Value,
        captured: &Vec<String>,
        types: &Vec<Ty>,
        span: Span,
    )
        ensures
            final(self)@ == old(self)@.bind_captured(
                object,
                names(captured@),
                tys(types@),
                span,
                captured@.len(),
            ),
    {
        let ghost start = self@;
        let mut i: usize = 0;
        proof {
            reveal(BodyView::bind_captured);
        }
        while i < captured.len()
            invariant
                i <= captured.len(),
                self@ == start.bind_captured(object, names(captured@), tys(types@), span, i as nat),
            decreases captured.len() - i,
        {
            proof {
                reveal(BodyView::bind_captured);
            }
            let value = self.emit(
                InstKind::GetField { object, field: index_id(i + 1) },
                ty_or_never(types, i),
                span,
            );
            self.bind_name(captured[i].as_str(), value, span);
            i += 1;
        }
    }

    /// Each parameter bound.
    pub fn bind_entry(
        &mut self,
        bindings: &Vec<Bound<'a>>,
        passed: &Vec<Value>,
        span: Span,
        fuel: u32,
    )
        ensures
            final(self)@ == old(self)@.bind_entry(
                bindings@,
                passed@,
                span,
                deeper(fuel as nat),
                bindings@.len(),
            ),
        decreases fuel, 1nat, bindings@.len(),
    {
        let ghost start = self@;
        let mut i: usize = 0;
        proof {
            reveal(BodyView::bind_entry);
        }
        while i < bindings.len()
            invariant
                i <= bindings.len(),
                self@ == start.bind_entry(bindings@, passed@, span, deeper(fuel as nat), i as nat),
            decreases bindings.len() - i,
        {
            proof {
                reveal(BodyView::bind_entry);
            }
            if i < passed.len() {
                match bindings[i] {
                    Bound::Receiver => {
                        self.bind_name("self", passed[i], span);
                    },
                    Bound::Written(binding) => {
                        self.bind_value(binding, passed[i], span, fuel);
                    },
                    Bound::Named(name) => {
                        self.bind_name(name.as_str(), passed[i], span);
                    },
                }
            }
            i += 1;
        }
    }
}

impl<'a> BodyView<'a> {
    /// A body with nothing lowered into it yet.
    #[verifier::opaque]
    pub open spec fn fresh(
        context: ContextView<'a>,
        function: FunctionView,
        throws: bool,
        mutated: Seq<Seq<char>>,
        next_function: u32,
    ) -> BodyView<'a> {
        BodyView {
            context,
            function: if function.entry.0 < function.blocks.len() {
                function.with_block(
                    function.entry,
                    BlockView { term: None, ..function.block(function.entry) },
                )
            } else {
                function
            },
            current: function.entry,
            left: false,
            scopes: seq![Seq::empty()],
            deferred: seq![Seq::empty()],
            handlers: Seq::empty(),
            declared: declared_of(throws, function.result),
            throws,
            defs: Map::empty(),
            slots: Map::empty(),
            expanding: Seq::empty(),
            next_var: 0,
            loops: Seq::empty(),
            mutated,
            made: Seq::empty(),
            next_function,
            gaps: Seq::empty(),
        }
    }

    /// A closure lowered into a function of its own, which takes the next id.
    #[verifier::opaque]
    pub open spec fn lower_closure(
        self,
        ty: TyView,
        captures: CapturesView,
        params: Seq<Param>,
        body: FunctionBody,
        span: Span,
        deeper: Deeper<'a>,
    ) -> (BodyView<'a>, Option<FuncId>) {
        match function_of_view(ty) {
            Some(shape) => if self.next_function < u32::MAX && shape.params.len() < id_limit() {
                let id = FuncId(self.next_function);
                let shell = FunctionView {
                    asynchronous: shape.asynchronous,
                    ..FunctionView::fresh(
                        closure_name(self.function.name, id),
                        seq![ty] + shape.params,
                        thrown_or_view(shape.result),
                        span,
                    )
                };
                let inner = BodyView::fresh(
                    self.context,
                    shell,
                    true,
                    in_body(Seq::empty(), body, Seeking::Assigned),
                    (self.next_function + 1) as u32,
                ).lower_into(
                    true,
                    captures.names,
                    captured_types(self, captures.vars),
                    bound_params_view(params),
                    body,
                    deeper,
                );
                (
                    BodyView {
                        made: self.made.push((id, inner.function)) + inner.made,
                        gaps: self.gaps + inner.gaps,
                        next_function: inner.next_function,
                        ..self
                    },
                    Some(id),
                )
            } else {
                (self, None)
            },
            None => (self, None),
        }
    }
}

impl<'a> Body<'a> {
    /// A body with nothing lowered into it yet.
    pub fn new(
        context: Context<'a>,
        function: Function,
        throws: bool,
        mutated: Vec<String>,
        next_function: u32,
    ) -> (body: Body<'a>)
        ensures
            body@ == BodyView::fresh(context@, function@, throws, names(mutated@), next_function),
    {
        proof {
            reveal(BodyView::fresh);
        }
        let ghost given = function@;
        let mut function = function;
        let entry = function.entry;
        if (entry.0 as usize) < function.blocks.len() {
            let ghost before = function.blocks@;
            function.blocks[entry.0 as usize].term = None;
            assert(views(function.blocks@) =~= views(before).update(
                entry.0 as int,
                BlockView { term: None, ..views(before)[entry.0 as int] },
            ));
        }
        let declared = match args_of(&function.result, Builtin::Result) {
            Some(args) => if throws {
                match ty_at(&args, 0) {
                    Some(ty) => ty,
                    None => Ty::Unit,
                }
            } else {
                function.result.clone()
            },
            None => function.result.clone(),
        };
        let scope: Vec<(String, u32)> = Vec::new();
        assert(scope_view(scope@) =~= Seq::empty());
        let mut scopes: Vec<Vec<(String, u32)>> = Vec::new();
        scopes.push(scope);
        let frame: Vec<Cleanup<'a>> = Vec::new();
        let mut deferred: Vec<Vec<Cleanup<'a>>> = Vec::new();
        deferred.push(frame);
        assert(scope_views(scopes@) =~= seq![Seq::empty()]);
        assert(deferred_views(deferred@) =~= seq![Seq::empty()]);
        let body = Body {
            context,
            function,
            current: entry,
            left: false,
            scopes,
            deferred,
            handlers: Vec::new(),
            declared,
            throws,
            defs: Held::new(),
            slots: Held::new(),
            expanding: Vec::new(),
            next_var: 0,
            loops: Vec::new(),
            mutated,
            made: Vec::new(),
            next_function,
            gaps: Vec::new(),
        };
        assert(body@.handlers =~= Seq::empty());
        assert(body@.expanding =~= Seq::empty());
        assert(body@.loops =~= Seq::empty());
        assert(body@.made =~= Seq::empty());
        assert(body@.gaps =~= Seq::empty());
        body
    }

    /// Lowers a closure into a function of its own, which takes the next id.
    pub fn lower_closure(
        &mut self,
        ty: &Ty,
        captures: &Captures,
        params: &'a Vec<Param>,
        body: &'a FunctionBody,
        span: Span,
        fuel: u32,
    ) -> (made: Option<FuncId>)
        ensures
            (final(self)@, made) == old(self)@.lower_closure(
                ty@,
                captures@,
                params@,
                *body,
                span,
                deeper(fuel as nat),
            ),
        decreases fuel, 6nat, 0nat,
    {
        proof {
            reveal(BodyView::lower_closure);
        }
        let shape = match function_of(ty) {
            Some(shape) => shape,
            None => {
                return None;
            },
        };
        if self.next_function == u32::MAX || shape.params.len() as u64 >= 0x1_0000_0000 {
            return None;
        }
        let id = FuncId(self.next_function);
        let mut mutated: Vec<String> = Vec::new();
        assert(names(mutated@) =~= Seq::empty());
        assigned_in(body, &mut mutated);
        let taken = with_first(ty, &shape.params);
        let mut parts: Vec<String> = Vec::new();
        parts.push(self.function.name.clone());
        parts.push("#".to_owned());
        parts.push(number(id.0 as u64));
        assert(names(parts@) =~= seq![self@.function.name, "#"@, decimal(id.0 as nat)]);
        let mut shell = Function::new(concat(&parts), taken, thrown_or(shape.result), span);
        shell.asynchronous = shape.asynchronous;
        let types = self.types_captured(&captures.vars);
        let bound = bound_params(params);
        let mut inner = Body::new(self.context, shell, true, mutated, id.0 + 1);
        inner.lower_into(true, &captures.names, &types, &bound, body, fuel);
        let ghost before = self@;
        let ghost within = inner@;
        let ghost held = self.made@;
        let ghost gaps = self.gaps@;
        let ghost more = inner.made@;
        let ghost more_gaps = inner.gaps@;
        let next = inner.next_function;
        self.made.push((id, inner.function));
        let mut made = inner.made;
        self.made.append(&mut made);
        let mut noticed = inner.gaps;
        self.gaps.append(&mut noticed);
        self.next_function = next;
        assert(made_views(self.made@) =~= made_views(held).push((id, within.function))
            + made_views(more));
        assert(views(self.gaps@) =~= views(gaps) + views(more_gaps));
        Some(id)
    }

    fn types_captured(&self, vars: &Vec<u32>) -> (types: Vec<Ty>)
        ensures
            tys(types@) == captured_types(self@, vars@),
    {
        let mut types: Vec<Ty> = Vec::new();
        let mut i: usize = 0;
        while i < vars.len()
            invariant
                i <= vars.len(),
                types@.len() == i,
                forall|k: int|
                    0 <= k < i ==> (#[trigger] types@[k])@ == self@.type_at(
                        self@.def_of(vars@[k]),
                    ),
            decreases vars.len() - i,
        {
            types.push(self.type_at(self.def_of(vars[i])));
            i += 1;
        }
        assert(tys(types@) =~= captured_types(self@, vars@));
        types
    }
}

fn with_first(first: &Ty, rest: &Vec<Ty>) -> (types: Vec<Ty>)
    ensures
        tys(types@) == seq![first@] + tys(rest@),
        types@.len() == rest@.len() + 1,
{
    let mut types: Vec<Ty> = Vec::new();
    types.push(first.clone());
    let mut i: usize = 0;
    while i < rest.len()
        invariant
            i <= rest.len(),
            types@.len() == i + 1,
            types@[0]@ == first@,
            forall|k: int| 0 < k <= i ==> (#[trigger] types@[k])@ == rest@[k - 1]@,
        decreases rest.len() - i,
    {
        types.push(rest[i].clone());
        i += 1;
    }
    assert(tys(types@) =~= seq![first@] + tys(rest@));
    types
}

} // verus!
