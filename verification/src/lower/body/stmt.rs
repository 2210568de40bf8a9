//! Lowering statements.

use vstd::prelude::*;

use crate::ast::BinaryOp as AstBinary;
use crate::ast::{Binding, Block, Branch, CatchClause, Expr, ExprKind, Stmt, StmtKind};
use crate::inst::{
    InstKind, InstKindView, Target, TargetView, Terminator, TerminatorView, Trap, Value,
    clone_values, one, two,
};
use crate::program::{BlockId, views};
use crate::span::Span;
use crate::text::maybe_name;
use crate::ty::{Ty, TyView};

use super::kinds::{
    as_opt, binary_op, binary_op_view, labelled, no_tys, optional, seq1, seq2, target_view,
};
use super::asked::{
    element_written, element_written_view, index_type, index_type_view, is_written_into,
    is_written_into_view, overloaded, overloaded_view,
};
use super::lookups::{all_arrived, all_arrived_view};
use super::deeper::{Deeper, deeper};
use super::flow::push_arrival;
use super::given::{
    either, entry_values, entry_values_view, given_one, given_one_view, maybe_expr, maybe_expr_view,
    or_else, or_else_view,
};
use super::{
    Arrival, ArrivalView, Body, BodyView, Cleanup, Handler, HandlerView, Loop, LoopView, clone_vars,
    label_view,
};

verus! {

impl<'a> BodyView<'a> {
    /// Lowers a block, in a scope of its own.
    #[verifier::opaque]
    pub open spec fn block_within(self, block: Block, deeper: Deeper<'a>) -> BodyView<'a> {
        let b = self;
        let b = b.open();
        let b = b.stmts(block.stmts@, block.span, deeper);
        let b = b.close(deeper);
        b
    }

    /// Lowers statements in order. Nothing after a block was left runs, so nothing
    /// after it is lowered.
    #[verifier::opaque]
    pub open spec fn stmts_within(
        self,
        stmts: Seq<Stmt>,
        deeper: Deeper<'a>,
        count: nat,
    ) -> BodyView<'a>
        decreases count,
    {
        if count == 0 {
            self
        } else {
            let b = self.stmts_within(stmts, deeper, (count - 1) as nat);
            let i = (count - 1) as nat;
            let b = if !b.left {
                let b = b.stmt(stmts[i as int], deeper);
                b
            } else {
                b
            };
            b
        }
    }

    /// Lowers one statement.
    #[verifier::opaque]
    pub open spec fn stmt(self, stmt: Stmt, deeper: Deeper<'a>) -> BodyView<'a> {
        let b = self;
        match stmt.kind {
            StmtKind::Local { binding, value } => {
                b.local(binding, maybe_expr_view(value), stmt.span, deeper)
            },
            StmtKind::Const { binding, value } => {
                b.local(binding, Some(&value), stmt.span, deeper)
            },
            StmtKind::Assign { target, op, value } => {
                b.assign(target, op, value, stmt.span, deeper)
            },
            StmtKind::Return(value) => {
                b.ret(maybe_expr_view(value), stmt.span, deeper)
            },
            StmtKind::If { branches, otherwise } => {
                b.if_stmt(branches@, otherwise, stmt.span, deeper)
            },
            StmtKind::While { label, condition, body } => {
                b.while_stmt(maybe_name(label), condition, body, stmt.span, deeper)
            },
            StmtKind::Repeat { label, body, until } => {
                b.repeat_stmt(maybe_name(label), body, until, stmt.span, deeper)
            },
            StmtKind::For { label, bindings, iterable, body } => {
                b.for_stmt(maybe_name(label), bindings@, iterable, body, stmt.span, deeper)
            },
            StmtKind::Break(label) => {
                b.leave(maybe_name(label), false, stmt.span, deeper)
            },
            StmtKind::Continue(label) => {
                b.leave(maybe_name(label), true, stmt.span, deeper)
            },
            StmtKind::Match { scrutinee, arms } => {
                b.match_stmt(scrutinee, arms@, stmt.span, deeper)
            },
            StmtKind::Defer(expr) => {
                b.defer(Cleanup::Deferred(&expr))
            },
            StmtKind::Throw(value) => {
                let (b, thrown) = b.expr(value, Some(TyView::Dynamic), deeper);
                b.raise(thrown, stmt.span, deeper)
            },
            StmtKind::Try { body, catches, finally } => {
                b.try_stmt(body, catches@, finally, stmt.span, deeper)
            },
            StmtKind::Unsafe(block) => {
                b.block(block, deeper)
            },
            StmtKind::Expr(expr) => {
                let (b, _) = b.expr(expr, None, deeper);
                b
            },
            StmtKind::Error => {
                b
            },
        }
    }

    /// A declaration with a type takes it, and one without takes what its initializer
    /// holds. Where nothing is written yet, the checker proved nothing reads it before
    /// something is.
    #[verifier::opaque]
    pub open spec fn local(
        self,
        binding: Binding,
        value: Option<&'a Expr>,
        span: Span,
        deeper: Deeper<'a>,
    ) -> BodyView<'a> {
        let b = self;
        let (b, declared) = b.declared_type(span);
        match value {
            Some(written) => {
                let (b, held) = b.stored(*written, declared, deeper);
                b.bind_value(binding, held, span, deeper)
            },
            None => {
                b.declare_binding(binding)
            },
        }
    }

    /// Each condition is tested in turn, and the first that holds runs its block.
    /// What every path that reaches the end agrees on carries through; what it does
    /// not becomes a parameter of the block they meet in.
    #[verifier::opaque]
    pub open spec fn if_stmt(
        self,
        branches: Seq<Branch>,
        otherwise: Option<Block>,
        span: Span,
        deeper: Deeper<'a>,
    ) -> BodyView<'a> {
        let b = self;
        let (b, join) = b.add_block(span);
        let (b, arrivals) = b.if_branches(branches, span, deeper, branches.len());
        let b = match otherwise {
            Some(block) => {
                let b = b.block(block, deeper);
                b
            },
            None => {
                b
            },
        };
        let (b, arrivals) = if !b.left {
            let arrivals = arrivals.push(b.arrival());
            (b, arrivals)
        } else {
            (b, arrivals)
        };
        let b = b.join(arrivals, join, span);
        b
    }

    /// Each branch of an `if` in turn, and the paths that reach the end of one.
    #[verifier::opaque]
    pub open spec fn if_branches(
        self,
        branches: Seq<Branch>,
        span: Span,
        deeper: Deeper<'a>,
        count: nat,
    ) -> (BodyView<'a>, Seq<ArrivalView>)
        decreases count,
    {
        if count == 0 {
            (self, Seq::empty())
        } else {
            let (b, arrivals) = self.if_branches(branches, span, deeper, (count - 1) as nat);
            let i = (count - 1) as nat;
            let (b, condition) = b.expr(branches[i as int].condition, Some(TyView::Bool), deeper);
            let (b, then) = b.add_block(span);
            let (b, next) = b.add_block(span);
            let b = b.branch(condition, then, next);
            let saved = b.saved_defs();
            let b = b.switch_to(then);
            let b = b.block(branches[i as int].body, deeper);
            let (b, arrivals) = if !b.left {
                let arrivals = arrivals.push(b.arrival());
                (b, arrivals)
            } else {
                (b, arrivals)
            };
            let b = b.restore(saved);
            let b = b.switch_to(next);
            (b, arrivals)
        }
    }

    /// The condition is tested before each pass.
    #[verifier::opaque]
    pub open spec fn while_stmt(
        self,
        label: Option<Seq<char>>,
        condition: Expr,
        body: Block,
        span: Span,
        deeper: Deeper<'a>,
    ) -> BodyView<'a> {
        let b = self;
        let carried = b.carried(body);
        let (b, header) = b.add_block(span);
        let b = b.jump_to(header, carried);
        let b = b.switch_to(header);
        let b = b.add_params(header, carried, span, carried.len());
        let b = b.bind_params(header, carried);
        let entering = b.saved_defs();
        let (b, condition) = b.expr(condition, Some(TyView::Bool), deeper);
        let (b, inside) = b.add_block(span);
        let (b, exit) = b.add_block(span);
        let leaving = b.defs_of(carried);
        let b = b.add_params(exit, carried, span, carried.len());
        let b = b.terminate(
            TerminatorView::Branch {
                condition,
                then: TargetView::to(inside),
                otherwise: target_view(exit, leaving),
            },
        );
        let b = b.switch_to(inside);
        let b = b.restore(entering);
        let depth = b.depth();
        let b = b.push_loop(LoopView { label, again: Some(header), exit, carried: carried, depth });
        let b = b.block(body, deeper);
        let b = if !b.left {
            let b = b.jump_to(header, carried);
            b
        } else {
            b
        };
        let b = b.pop_loop();
        let b = b.switch_to(exit);
        let b = b.restore(entering);
        let b = b.bind_params(exit, carried);
        b
    }

    /// The body runs before the condition is tested, so the loop runs at least once,
    /// and the condition reads what the body declared, so it is lowered inside the
    /// body's scope rather than in a block of its own.
    #[verifier::opaque]
    pub open spec fn repeat_stmt(
        self,
        label: Option<Seq<char>>,
        body: Block,
        until: Expr,
        span: Span,
        deeper: Deeper<'a>,
    ) -> BodyView<'a> {
        let b = self;
        let carried = b.carried(body);
        let (b, inside) = b.add_block(span);
        let b = b.jump_to(inside, carried);
        let (b, exit) = b.add_block(span);
        let b = b.add_params(inside, carried, span, carried.len());
        let b = b.switch_to(inside);
        let b = b.bind_params(inside, carried);
        let entering = b.saved_defs();
        let depth = b.depth();
        let b = b.open();
        let b = b.push_loop(LoopView { label, again: None, exit, carried: carried, depth });
        let b = b.stmts(body.stmts@, span, deeper);
        let b = if !b.left {
            let (b, condition) = b.expr(until, Some(TyView::Bool), deeper);
            let b = b.unwind(depth, deeper);
            let leaving = b.defs_of(carried);
            let b = b.add_params(exit, carried, span, carried.len());
            let b = b.terminate(
                TerminatorView::Branch {
                    condition,
                    then: target_view(exit, leaving),
                    otherwise: target_view(inside, leaving),
                },
            );
            b
        } else {
            let b = b.add_params(exit, carried, span, carried.len());
            b
        };
        let b = b.pop_loop();
        let b = b.drop_scope();
        let b = b.switch_to(exit);
        let b = b.restore(entering);
        let b = b.bind_params(exit, carried);
        b
    }

    /// The clauses are tried in the order they are written, the first whose type the
    /// thrown value has runs, and the `finally` runs whichever way the statement is
    /// left.
    #[verifier::opaque]
    pub open spec fn try_stmt(
        self,
        body: Block,
        catches: Seq<CatchClause>,
        finally: Option<Block>,
        span: Span,
        deeper: Deeper<'a>,
    ) -> BodyView<'a> {
        let b = self;
        let carried = b.carried(body);
        let (b, dispatch) = b.add_block(span);
        let (b, thrown) = b.add_block_param(dispatch, TyView::Dynamic, span);
        let b = b.add_params(dispatch, carried, span, carried.len());
        let entering = b.saved_defs();
        let b = b.open();
        let b = match finally {
            Some(last) => {
                let b = b.defer(Cleanup::Finally(&last));
                b
            },
            None => {
                b
            },
        };
        let frame = b.depth();
        let b = b.push_handler(HandlerView { block: dispatch, frame, carried: carried });
        let b = b.block(body, deeper);
        let b = b.pop_handler();
        let arrivals = b.arrived_here();
        let b = b.switch_to(dispatch);
        let b = b.restore(entering);
        let b = b.bind_thrown(dispatch, carried);
        let (b, caught) = b.catch_clauses(thrown, catches, deeper, catches.len());
        let b = if !b.left {
            let b = b.raise(thrown, span, deeper);
            b
        } else {
            b
        };
        let (b, done_block) = b.add_block(span);
        let b = b.join(all_arrived_view(arrivals, caught), done_block, span);
        let b = b.close(deeper);
        b
    }

    /// Each clause in turn, and the paths that reach the end of one. Nothing after a
    /// clause that catches everything is reachable.
    #[verifier::opaque]
    pub open spec fn catch_clauses(
        self,
        thrown: Value,
        catches: Seq<CatchClause>,
        deeper: Deeper<'a>,
        count: nat,
    ) -> (BodyView<'a>, Seq<ArrivalView>)
        decreases count,
    {
        if count == 0 {
            (self, Seq::empty())
        } else {
            let (b, arrivals) = self.catch_clauses(thrown, catches, deeper, (count - 1) as nat);
            let i = (count - 1) as nat;
            let (b, next) = b.add_block(catches[i as int].span);
            let (b, caught) = b.catch(thrown, catches[i as int], next);
            let saved = b.saved_defs();
            let b = b.open();
            let b = b.bind_name(catches[i as int].name@, caught, catches[i as int].span);
            let b = b.stmts(catches[i as int].body.stmts@, catches[i as int].span, deeper);
            let b = b.close(deeper);
            let (b, arrivals) = if !b.left {
                let arrivals = arrivals.push(b.arrival());
                (b, arrivals)
            } else {
                (b, arrivals)
            };
            let b = b.restore(saved);
            let b = b.switch_to(next);
            let b = if !catches[i as int].typed {
                let b = b.terminate(TerminatorView::Trap(Trap::Unreachable));
                b
            } else {
                b
            };
            (b, arrivals)
        }
    }

    /// What a clause binds. One with a type tests for it, and leaves for `next` where
    /// the thrown value has another.
    #[verifier::opaque]
    pub open spec fn catch(
        self,
        thrown: Value,
        clause: CatchClause,
        next: BlockId,
    ) -> (BodyView<'a>, Value) {
        let b = self;
        if !clause.typed {
            (b, thrown)
        } else {
            let (b, ty) = b.recorded(clause.span);
            let (b, test) = b.emit(
                InstKindView::IsType { value: thrown, ty: ty },
                TyView::Bool,
                clause.span,
            );
            let (b, matched) = b.add_block(clause.span);
            let b = b.branch(test, matched, next);
            let b = b.switch_to(matched);
            b.emit(InstKindView::DynValue { value: thrown }, ty, clause.span)
        }
    }

    /// Points each carried binding at the parameter the handler receives it in, which
    /// comes after the thrown value.
    #[verifier::opaque]
    pub open spec fn bind_thrown(self, block: BlockId, carried: Seq<u32>) -> BodyView<'a> {
        let b = self;
        let params = b.params_of(block);
        let rest = entry_values_view(params, true);
        let b = b.set_defs(carried, rest, carried.len());
        b
    }

    /// An assignment evaluates its target before its value, and a compound assignment
    /// evaluates the target once.
    #[verifier::opaque]
    pub open spec fn assign(
        self,
        target: Expr,
        op: Option<AstBinary>,
        value: Expr,
        span: Span,
        deeper: Deeper<'a>,
    ) -> BodyView<'a> {
        let b = self;
        match target.kind {
            ExprKind::Name(name) => {
                match b.lookup(name@) {
                    Some(var) => {
                        let (b, held) = b.read_var(var, target.span);
                        let wanted = b.type_at(held);
                        let (b, written) = b.written_into(
                            Some(held),
                            wanted,
                            op,
                            value,
                            target.span,
                            span,
                            deeper,
                        );
                        b.write_var(var, written, span)
                    },
                    None => b.gap(span, "an assignment to a name from another scope"@),
                }
            },
            ExprKind::Field { receiver, name, optional } => {
                if optional {
                    b.gap(span, "an assignment to this target"@)
                } else {
                    b.assign_field(*receiver, name@, op, value, target.span, span, deeper)
                }
            },
            ExprKind::Index { receiver, index, optional } => {
                if optional {
                    b.gap(span, "an assignment to this target"@)
                } else {
                    b.assign_index(*receiver, *index, op, value, target.span, span, deeper)
                }
            },
            _ => {
                b.gap(span, "an assignment to this target"@)
            },
        }
    }

    /// Writing a field of a mutable struct, or a property.
    #[verifier::opaque]
    pub open spec fn assign_field(
        self,
        receiver: Expr,
        name: Seq<char>,
        op: Option<AstBinary>,
        value: Expr,
        target: Span,
        span: Span,
        deeper: Deeper<'a>,
    ) -> BodyView<'a> {
        let b = self;
        let (b, object) = b.expr(receiver, None, deeper);
        let (b, object) = b.settled(object, span);
        let held = b.type_at(object);
        if b.has_property(held, name) {
            b.write_property(object, held, name, op, value, target, span, deeper)
        } else {
            match b.field_index(held, name) {
                Some(index) => {
                    let ty = or_else_view(b.stored_type(held, index), TyView::Never);
                    let (b, read) = match op {
                        Some(_) => {
                            let (b, value) = b.emit(
                                InstKindView::GetField { object, field: index },
                                ty,
                                span,
                            );
                            (b, Some(value))
                        },
                        None => {
                            (b, None)
                        },
                    };
                    let (b, written) = b.written_into(read, ty, op, value, target, span, deeper);
                    let b = b.emit_void(
                        InstKindView::SetField { object, field: index, value: written },
                        span,
                    );
                    b
                },
                None => b.gap(span, "an assignment to a member that is not a stored field"@),
            }
        }
    }

    /// Writing an element of a container.
    #[verifier::opaque]
    pub open spec fn assign_index(
        self,
        receiver: Expr,
        index: Expr,
        op: Option<AstBinary>,
        value: Expr,
        target: Span,
        span: Span,
        deeper: Deeper<'a>,
    ) -> BodyView<'a> {
        let b = self;
        let (b, container) = b.expr(receiver, None, deeper);
        let (b, container) = b.settled(container, span);
        let held = b.type_at(container);
        if !is_written_into_view(held) {
            b.gap(span, "an assignment into something the compiler cannot index"@)
        } else {
            match element_written_view(held) {
                Some(element) => {
                    let key = index_type_view(held);
                    let (b, at) = b.expr(index, key, deeper);
                    let (b, read) = match op {
                        Some(_) => {
                            let (b, value) = b.emit(
                                InstKindView::GetIndex { receiver: container, index: at },
                                element,
                                span,
                            );
                            (b, Some(value))
                        },
                        None => {
                            (b, None)
                        },
                    };
                    let (b, written) = b.written_into(
                        read,
                        element,
                        op,
                        value,
                        target,
                        span,
                        deeper,
                    );
                    let b = b.emit_void(
                        InstKindView::SetIndex { receiver: container, index: at, value: written },
                        span,
                    );
                    b
                },
                None => b.gap(span, "an assignment into a container with no element type"@),
            }
        }
    }

    /// Writing a property runs its setter. A compound assignment reads through the
    /// getter first, which is the same target evaluated once.
    #[verifier::opaque]
    pub open spec fn write_property(
        self,
        object: Value,
        held: TyView,
        name: Seq<char>,
        op: Option<AstBinary>,
        value: Expr,
        target: Span,
        span: Span,
        deeper: Deeper<'a>,
    ) -> BodyView<'a> {
        let b = self;
        match b.getter(held, name) {
            Some(found) => {
                match b.setter(held, name) {
                    Some(set) => {
                        let (b, read) = match op {
                            Some(_) => {
                                let (b, value) = b.emit(
                                    InstKindView::Call {
                                        callee: found.0,
                                        type_args: Seq::empty(),
                                        args: seq1(object),
                                    },
                                    found.1,
                                    span,
                                );
                                (b, Some(value))
                            },
                            None => {
                                (b, None)
                            },
                        };
                        let (b, written) = b.written_into(
                            read,
                            found.1,
                            op,
                            value,
                            target,
                            span,
                            deeper,
                        );
                        let b = b.emit_void(
                            InstKindView::Call {
                                callee: set,
                                type_args: Seq::empty(),
                                args: seq2(object, written),
                            },
                            span,
                        );
                        b
                    },
                    None => b.gap(span, "an assignment to a property with no setter"@),
                }
            },
            None => b.gap(span, "a property the compiler could not read"@),
        }
    }

    /// What an assignment writes: the value, or what the operator makes of what the
    /// target already held and the value. `a += b` is `a = a:add(b)` where the
    /// operator went through a protocol, called on the one read of the target.
    #[verifier::opaque]
    pub open spec fn written_into(
        self,
        held: Option<Value>,
        wanted: TyView,
        op: Option<AstBinary>,
        value: Expr,
        target: Span,
        span: Span,
        deeper: Deeper<'a>,
    ) -> (BodyView<'a>, Value) {
        let b = self;
        match overloaded_view(held, op, b.reached(target), b.has_protocol(op)) {
            Some(declaration) => {
                let args = given_one_view(value);
                b.call_declared(declaration, held, args, target, deeper)
            },
            None => {
                let (b, right) = b.stored(value, Some(wanted), deeper);
                match held {
                    Some(left) => {
                        match op {
                            Some(operator) => {
                                match binary_op_view(operator) {
                                    Some(lowered) => {
                                        b.emit(
                                            InstKindView::Binary { op: lowered, left, right },
                                            wanted,
                                            span,
                                        )
                                    },
                                    None => {
                                        b.missing(span, "a compound assignment with this operator"@)
                                    },
                                }
                            },
                            None => (b, right),
                        }
                    },
                    None => (b, right),
                }
            },
        }
    }
}

impl<'a> Body<'a> {
    /// Lowers a block, in a scope of its own.
    pub fn block_within(&mut self, block: &'a Block, fuel: u32)
        ensures
            final(self)@ == old(self)@.block_within(*block, deeper(fuel as nat)),
        decreases fuel, 4nat, 0nat,
    {
        proof {
            reveal(BodyView::block_within);
        }
        self.open();
        self.stmts(&block.stmts, block.span, fuel);
        self.close(fuel);
    }

    /// Lowers statements in order. Nothing after a block was left runs, so nothing
    /// after it is lowered.
    pub fn stmts_within(&mut self, stmts: &'a Vec<Stmt>, fuel: u32)
        ensures
            final(self)@ == old(self)@.stmts_within(stmts@, deeper(fuel as nat), stmts@.len()),
        decreases fuel, 21nat, stmts@.len(),
    {
        let ghost start = self@;
        let mut i: usize = 0;
        proof {
            reveal(BodyView::stmts_within);
        }
        while i < stmts.len()
            invariant
                i <= stmts.len(),
                self@ == start.stmts_within(stmts@, deeper(fuel as nat), i as nat),
            decreases stmts.len() - i,
        {
            proof {
                reveal(BodyView::stmts_within);
            }
            if !self.has_left() {
                self.stmt(&stmts[i], fuel);
            }
            i += 1;
        }
    }

    /// Lowers one statement.
    pub fn stmt(&mut self, stmt: &'a Stmt, fuel: u32)
        ensures
            final(self)@ == old(self)@.stmt(*stmt, deeper(fuel as nat)),
        decreases fuel, 20nat, 0nat,
    {
        proof {
            reveal(BodyView::stmt);
        }
        match &stmt.kind {
            StmtKind::Local { binding, value } => {
                self.local(binding, maybe_expr(value), stmt.span, fuel);
            },
            StmtKind::Const { binding, value } => {
                self.local(binding, Some(value), stmt.span, fuel);
            },
            StmtKind::Assign { target, op, value } => {
                self.assign(target, *op, value, stmt.span, fuel);
            },
            StmtKind::Return(value) => {
                self.ret(maybe_expr(value), stmt.span, fuel);
            },
            StmtKind::If { branches, otherwise } => {
                self.if_stmt(branches, otherwise, stmt.span, fuel);
            },
            StmtKind::While { label, condition, body } => {
                self.while_stmt(labelled(label), condition, body, stmt.span, fuel);
            },
            StmtKind::Repeat { label, body, until } => {
                self.repeat_stmt(labelled(label), body, until, stmt.span, fuel);
            },
            StmtKind::For { label, bindings, iterable, body } => {
                self.for_stmt(labelled(label), bindings, iterable, body, stmt.span, fuel);
            },
            StmtKind::Break(label) => {
                self.leave(labelled(label), false, stmt.span, fuel);
            },
            StmtKind::Continue(label) => {
                self.leave(labelled(label), true, stmt.span, fuel);
            },
            StmtKind::Match { scrutinee, arms } => {
                self.match_stmt(scrutinee, arms, stmt.span, fuel);
            },
            // Nothing runs here.
            StmtKind::Defer(expr) => {
                self.defer(Cleanup::Deferred(expr));
            },
            // What it throws leaves every scope between here and whatever catches it.
            StmtKind::Throw(value) => {
                let thrown = self.expr(value, Some(&Ty::Dynamic), fuel);
                self.raise(thrown, stmt.span, fuel);
            },
            StmtKind::Try { body, catches, finally } => {
                self.try_stmt(body, catches, finally, stmt.span, fuel);
            },
            // `unsafe` is a promise the checker made the caller keep.
            StmtKind::Unsafe(block) => {
                self.block(block, fuel);
            },
            StmtKind::Expr(expr) => {
                let _ = self.expr(expr, None, fuel);
            },
            StmtKind::Error => {},
        }
    }

    /// A declaration with a type takes it, and one without takes what its initializer
    /// holds. Where nothing is written yet, the checker proved nothing reads it before
    /// something is.
    pub fn local(&mut self, binding: &'a Binding, value: Option<&'a Expr>, span: Span, fuel: u32)
        ensures
            final(self)@ == old(self)@.local(*binding, value, span, deeper(fuel as nat)),
        decreases fuel, 2nat, 0nat,
    {
        proof {
            reveal(BodyView::local);
        }
        let declared = self.declared_type(span);
        match value {
            Some(written) => {
                let held = self.stored(written, as_opt(&declared), fuel);
                self.bind_value(binding, held, span, fuel);
            },
            None => {
                self.declare_binding(binding);
            },
        }
    }

    /// Each condition is tested in turn, and the first that holds runs its block.
    /// What every path that reaches the end agrees on carries through; what it does
    /// not becomes a parameter of the block they meet in.
    pub fn if_stmt(
        &mut self,
        branches: &'a Vec<Branch>,
        otherwise: &'a Option<Block>,
        span: Span,
        fuel: u32,
    )
        ensures
            final(self)@ == old(self)@.if_stmt(branches@, *otherwise, span, deeper(fuel as nat)),
        decreases fuel, 3nat, 0nat,
    {
        proof {
            reveal(BodyView::if_stmt);
        }
        let join = self.add_block(span);
        let arrivals = self.if_branches(branches, span, fuel);
        match otherwise {
            Some(block) => {
                self.block(block, fuel);
            },
            None => {},
        }
        let mut arrivals = arrivals;
        if !self.has_left() {
            push_arrival(&mut arrivals, self.arrival());
        }
        self.join(arrivals, join, span);
    }

    /// Each branch of an `if` in turn, and the paths that reach the end of one.
    pub fn if_branches(
        &mut self,
        branches: &'a Vec<Branch>,
        span: Span,
        fuel: u32,
    ) -> (arrivals: Vec<Arrival>)
        ensures
            (final(self)@, views(arrivals@)) == old(self)@.if_branches(
                branches@,
                span,
                deeper(fuel as nat),
                branches@.len(),
            ),
        decreases fuel, 1nat, branches@.len(),
    {
        let ghost start = self@;
        let mut arrivals: Vec<Arrival> = Vec::new();
        let mut i: usize = 0;
        proof {
            reveal(BodyView::if_branches);
        }
        assert(views(arrivals@) =~= Seq::empty());
        while i < branches.len()
            invariant
                i <= branches.len(),
                (self@, views(arrivals@)) == start.if_branches(
                    branches@,
                    span,
                    deeper(fuel as nat),
                    i as nat,
                ),
            decreases branches.len() - i,
        {
            proof {
                reveal(BodyView::if_branches);
            }
            let condition = self.expr(&branches[i].condition, Some(&Ty::Bool), fuel);
            let then = self.add_block(span);
            let next = self.add_block(span);
            self.branch(condition, then, next);
            let saved = self.saved_defs();
            self.switch_to(then);
            self.block(&branches[i].body, fuel);
            if !self.has_left() {
                push_arrival(&mut arrivals, self.arrival());
            }
            self.restore(&saved);
            self.switch_to(next);
            i += 1;
        }
        arrivals
    }

    /// The condition is tested before each pass.
    pub fn while_stmt(
        &mut self,
        label: Option<&'a String>,
        condition: &'a Expr,
        body: &'a Block,
        span: Span,
        fuel: u32,
    )
        ensures
            final(self)@ == old(self)@.while_stmt(
                label_view(label),
                *condition,
                *body,
                span,
                deeper(fuel as nat),
            ),
        decreases fuel, 3nat, 0nat,
    {
        proof {
            reveal(BodyView::while_stmt);
        }
        let carried = self.carried(body);
        let header = self.add_block(span);
        self.jump_to(header, &carried);
        self.switch_to(header);
        self.add_params(header, &carried, span);
        self.bind_params(header, &carried);
        let entering = self.saved_defs();
        let condition = self.expr(condition, Some(&Ty::Bool), fuel);
        let inside = self.add_block(span);
        let exit = self.add_block(span);
        let leaving = self.defs_of(&carried);
        self.add_params(exit, &carried, span);
        self.terminate(
            Terminator::Branch {
                condition,
                then: Target::to(inside),
                otherwise: Target::new(exit, leaving),
            },
        );
        self.switch_to(inside);
        self.restore(&entering);
        let depth = self.depth();
        self.push_loop(
            Loop { label, again: Some(header), exit, carried: clone_vars(&carried), depth },
        );
        self.block(body, fuel);
        if !self.has_left() {
            self.jump_to(header, &carried);
        }
        self.pop_loop();
        self.switch_to(exit);
        self.restore(&entering);
        self.bind_params(exit, &carried);
    }

    /// The body runs before the condition is tested, so the loop runs at least once,
    /// and the condition reads what the body declared, so it is lowered inside the
    /// body's scope rather than in a block of its own.
    pub fn repeat_stmt(
        &mut self,
        label: Option<&'a String>,
        body: &'a Block,
        until: &'a Expr,
        span: Span,
        fuel: u32,
    )
        ensures
            final(self)@ == old(self)@.repeat_stmt(
                label_view(label),
                *body,
                *until,
                span,
                deeper(fuel as nat),
            ),
        decreases fuel, 3nat, 0nat,
    {
        proof {
            reveal(BodyView::repeat_stmt);
        }
        let carried = self.carried(body);
        let inside = self.add_block(span);
        self.jump_to(inside, &carried);
        let exit = self.add_block(span);
        self.add_params(inside, &carried, span);
        self.switch_to(inside);
        self.bind_params(inside, &carried);
        let entering = self.saved_defs();
        let depth = self.depth();
        self.open();
        self.push_loop(Loop { label, again: None, exit, carried: clone_vars(&carried), depth });
        self.stmts(&body.stmts, span, fuel);
        if !self.has_left() {
            let condition = self.expr(until, Some(&Ty::Bool), fuel);
            // The scope ends here whichever way the branch goes, so what it deferred
            // runs once, before either.
            self.unwind(depth, fuel);
            let leaving = self.defs_of(&carried);
            self.add_params(exit, &carried, span);
            self.terminate(
                Terminator::Branch {
                    condition,
                    then: Target::new(exit, clone_values(&leaving)),
                    otherwise: Target::new(inside, leaving),
                },
            );
        } else {
            self.add_params(exit, &carried, span);
        }
        self.pop_loop();
        self.drop_scope();
        self.switch_to(exit);
        self.restore(&entering);
        self.bind_params(exit, &carried);
    }

    /// The clauses are tried in the order they are written, the first whose type the
    /// thrown value has runs, and the `finally` runs whichever way the statement is
    /// left.
    pub fn try_stmt(
        &mut self,
        body: &'a Block,
        catches: &'a Vec<CatchClause>,
        finally: &'a Option<Block>,
        span: Span,
        fuel: u32,
    )
        ensures
            final(self)@ == old(self)@.try_stmt(
                *body,
                catches@,
                *finally,
                span,
                deeper(fuel as nat),
            ),
        decreases fuel, 6nat, 0nat,
    {
        proof {
            reveal(BodyView::try_stmt);
        }
        let carried = self.carried(body);
        let dispatch = self.add_block(span);
        let thrown = self.add_block_param(dispatch, Ty::Dynamic, span);
        self.add_params(dispatch, &carried, span);
        let entering = self.saved_defs();
        // The `finally` belongs to a scope around the guarded block, so it runs after
        // the handler rather than on the way to it.
        self.open();
        match finally {
            Some(last) => {
                self.defer(Cleanup::Finally(last));
            },
            None => {},
        }
        let frame = self.depth();
        self.push_handler(Handler { block: dispatch, frame, carried: clone_vars(&carried) });
        self.block(body, fuel);
        self.pop_handler();
        let arrivals = self.arrived_here();
        self.switch_to(dispatch);
        self.restore(&entering);
        self.bind_thrown(dispatch, &carried);
        let caught = self.catch_clauses(thrown, catches, fuel);
        // What no clause caught keeps going, once the `finally` around the handler has
        // run.
        if !self.has_left() {
            self.raise(thrown, span, fuel);
        }
        let done_block = self.add_block(span);
        self.join(all_arrived(arrivals, caught), done_block, span);
        self.close(fuel);
    }

    /// Each clause in turn, and the paths that reach the end of one. Nothing after a
    /// clause that catches everything is reachable.
    pub fn catch_clauses(
        &mut self,
        thrown: Value,
        catches: &'a Vec<CatchClause>,
        fuel: u32,
    ) -> (arrivals: Vec<Arrival>)
        ensures
            (final(self)@, views(arrivals@)) == old(self)@.catch_clauses(
                thrown,
                catches@,
                deeper(fuel as nat),
                catches@.len(),
            ),
        decreases fuel, 5nat, catches@.len(),
    {
        let ghost start = self@;
        let mut arrivals: Vec<Arrival> = Vec::new();
        let mut i: usize = 0;
        proof {
            reveal(BodyView::catch_clauses);
        }
        assert(views(arrivals@) =~= Seq::empty());
        while i < catches.len()
            invariant
                i <= catches.len(),
                (self@, views(arrivals@)) == start.catch_clauses(
                    thrown,
                    catches@,
                    deeper(fuel as nat),
                    i as nat,
                ),
            decreases catches.len() - i,
        {
            proof {
                reveal(BodyView::catch_clauses);
            }
            let next = self.add_block(catches[i].span);
            let caught = self.catch(thrown, &catches[i], next);
            let saved = self.saved_defs();
            self.open();
            self.bind_name(catches[i].name.as_str(), caught, catches[i].span);
            self.stmts(&catches[i].body.stmts, catches[i].span, fuel);
            self.close(fuel);
            if !self.has_left() {
                push_arrival(&mut arrivals, self.arrival());
            }
            self.restore(&saved);
            self.switch_to(next);
            if !catches[i].typed {
                self.terminate(Terminator::Trap(Trap::Unreachable));
            }
            i += 1;
        }
        arrivals
    }

    /// What a clause binds. One with a type tests for it, and leaves for `next` where
    /// the thrown value has another.
    pub fn catch(
        &mut self,
        thrown: Value,
        clause: &'a CatchClause,
        next: BlockId,
    ) -> (produced: Value)
        ensures
            (final(self)@, produced) == old(self)@.catch(thrown, *clause, next),
    {
        proof {
            reveal(BodyView::catch);
        }
        if !clause.typed {
            return thrown;
        }
        let ty = self.recorded(clause.span);
        let test = self.emit(
            InstKind::IsType { value: thrown, ty: ty.clone() },
            Ty::Bool,
            clause.span,
        );
        let matched = self.add_block(clause.span);
        self.branch(test, matched, next);
        self.switch_to(matched);
        self.emit(InstKind::DynValue { value: thrown }, ty, clause.span)
    }

    /// Points each carried binding at the parameter the handler receives it in, which
    /// comes after the thrown value.
    pub fn bind_thrown(&mut self, block: BlockId, carried: &Vec<u32>)
        ensures
            final(self)@ == old(self)@.bind_thrown(block, carried@),
    {
        proof {
            reveal(BodyView::bind_thrown);
        }
        let params = self.params_of(block);
        let rest = entry_values(&params, true);
        self.set_defs(carried, &rest);
    }

    /// An assignment evaluates its target before its value, and a compound assignment
    /// evaluates the target once.
    pub fn assign(
        &mut self,
        target: &'a Expr,
        op: Option<AstBinary>,
        value: &'a Expr,
        span: Span,
        fuel: u32,
    )
        ensures
            final(self)@ == old(self)@.assign(*target, op, *value, span, deeper(fuel as nat)),
        decreases fuel, 13nat, 0nat,
    {
        proof {
            reveal(BodyView::assign);
        }
        match &target.kind {
            ExprKind::Name(name) => {
                let var = match self.lookup(name.as_str()) {
                    Some(var) => var,
                    None => {
                        self.gap(span, "an assignment to a name from another scope");
                        return;
                    },
                };
                let held = self.read_var(var, target.span);
                let wanted = self.type_at(held);
                let written = self.written_into(
                    Some(held),
                    &wanted,
                    op,
                    value,
                    target.span,
                    span,
                    fuel,
                );
                self.write_var(var, written, span);
            },
            ExprKind::Field { receiver, name, optional } => {
                if *optional {
                    self.gap(span, "an assignment to this target");
                    return;
                }
                self.assign_field(receiver, name.as_str(), op, value, target.span, span, fuel);
            },
            ExprKind::Index { receiver, index, optional } => {
                if *optional {
                    self.gap(span, "an assignment to this target");
                    return;
                }
                self.assign_index(receiver, index, op, value, target.span, span, fuel);
            },
            _ => {
                self.gap(span, "an assignment to this target");
            },
        }
    }

    /// Writing a field of a mutable struct, or a property.
    pub fn assign_field(
        &mut self,
        receiver: &'a Expr,
        name: &str,
        op: Option<AstBinary>,
        value: &'a Expr,
        target: Span,
        span: Span,
        fuel: u32,
    )
        ensures
            final(self)@ == old(self)@.assign_field(
                *receiver,
                name@,
                op,
                *value,
                target,
                span,
                deeper(fuel as nat),
            ),
        decreases fuel, 12nat, 0nat,
    {
        proof {
            reveal(BodyView::assign_field);
        }
        let object = self.expr(receiver, None, fuel);
        let object = self.settled(object, span);
        let held = self.type_at(object);
        if self.has_property(&held, name) {
            self.write_property(object, &held, name, op, value, target, span, fuel);
            return;
        }
        let index = match self.field_index(&held, name) {
            Some(index) => index,
            None => {
                self.gap(span, "an assignment to a member that is not a stored field");
                return;
            },
        };
        let ty = or_else(self.stored_type(&held, index), Ty::Never);
        let read = match op {
            Some(_) => {
                let value = self.emit(
                    InstKind::GetField { object, field: index },
                    ty.clone(),
                    span,
                );
                Some(value)
            },
            None => {
                None
            },
        };
        let written = self.written_into(read, &ty, op, value, target, span, fuel);
        self.emit_void(InstKind::SetField { object, field: index, value: written }, span);
    }

    /// Writing an element of a container.
    pub fn assign_index(
        &mut self,
        receiver: &'a Expr,
        index: &'a Expr,
        op: Option<AstBinary>,
        value: &'a Expr,
        target: Span,
        span: Span,
        fuel: u32,
    )
        ensures
            final(self)@ == old(self)@.assign_index(
                *receiver,
                *index,
                op,
                *value,
                target,
                span,
                deeper(fuel as nat),
            ),
        decreases fuel, 12nat, 0nat,
    {
        proof {
            reveal(BodyView::assign_index);
        }
        let container = self.expr(receiver, None, fuel);
        let container = self.settled(container, span);
        let held = self.type_at(container);
        if !is_written_into(&held) {
            self.gap(span, "an assignment into something the compiler cannot index");
            return;
        }
        let element = match element_written(&held) {
            Some(element) => element,
            None => {
                self.gap(span, "an assignment into a container with no element type");
                return;
            },
        };
        let key = index_type(&held);
        let at = self.expr(index, as_opt(&key), fuel);
        let read = match op {
            Some(_) => {
                let value = self.emit(
                    InstKind::GetIndex { receiver: container, index: at },
                    element.clone(),
                    span,
                );
                Some(value)
            },
            None => {
                None
            },
        };
        let written = self.written_into(read, &element, op, value, target, span, fuel);
        self.emit_void(InstKind::SetIndex { receiver: container, index: at, value: written }, span);
    }

    /// Writing a property runs its setter. A compound assignment reads through the
    /// getter first, which is the same target evaluated once.
    pub fn write_property(
        &mut self,
        object: Value,
        held: &Ty,
        name: &str,
        op: Option<AstBinary>,
        value: &'a Expr,
        target: Span,
        span: Span,
        fuel: u32,
    )
        ensures
            final(self)@ == old(self)@.write_property(
                object,
                held@,
                name@,
                op,
                *value,
                target,
                span,
                deeper(fuel as nat),
            ),
        decreases fuel, 11nat, 0nat,
    {
        proof {
            reveal(BodyView::write_property);
        }
        let found = match self.getter(held, name) {
            Some(found) => found,
            None => {
                self.gap(span, "a property the compiler could not read");
                return;
            },
        };
        let set = match self.setter(held, name) {
            Some(set) => set,
            None => {
                self.gap(span, "an assignment to a property with no setter");
                return;
            },
        };
        let read = match op {
            Some(_) => {
                let value = self.emit(
                    InstKind::Call { callee: found.0, type_args: no_tys(), args: one(object) },
                    found.1.clone(),
                    span,
                );
                Some(value)
            },
            None => {
                None
            },
        };
        let written = self.written_into(read, &found.1, op, value, target, span, fuel);
        self.emit_void(
            InstKind::Call { callee: set, type_args: no_tys(), args: two(object, written) },
            span,
        );
    }

    /// What an assignment writes: the value, or what the operator makes of what the
    /// target already held and the value. `a += b` is `a = a:add(b)` where the
    /// operator went through a protocol, called on the one read of the target.
    pub fn written_into(
        &mut self,
        held: Option<Value>,
        wanted: &Ty,
        op: Option<AstBinary>,
        value: &'a Expr,
        target: Span,
        span: Span,
        fuel: u32,
    ) -> (produced: Value)
        ensures
            (final(self)@, produced) == old(self)@.written_into(
                held,
                wanted@,
                op,
                *value,
                target,
                span,
                deeper(fuel as nat),
            ),
        decreases fuel, 10nat, 0nat,
    {
        proof {
            reveal(BodyView::written_into);
        }
        match overloaded(held, op, self.reached(target), self.has_protocol(op)) {
            Some(declaration) => {
                let args = given_one(value);
                self.call_declared(declaration, held, &args, target, fuel)
            },
            None => {
                let right = self.stored(value, Some(wanted), fuel);
                let left = match held {
                    Some(left) => left,
                    None => {
                        return right;
                    },
                };
                let operator = match op {
                    Some(operator) => operator,
                    None => {
                        return right;
                    },
                };
                match binary_op(operator) {
                    Some(lowered) => {
                        self.emit(
                            InstKind::Binary { op: lowered, left, right },
                            wanted.clone(),
                            span,
                        )
                    },
                    None => {
                        self.missing(span, "a compound assignment with this operator")
                    },
                }
            },
        }
    }
}

} // verus!
