//! Lowering what is nested inside something else.

use vstd::prelude::*;

use crate::ast::{Binding, Block, Expr, Pattern, Stmt};
use crate::inst::Value;
use crate::program::BlockId;
use crate::span::Span;
use crate::ty::{Ty, TyView};

use super::kinds::opt_ty;
use super::{Body, BodyView};

verus! {

/// How what is nested inside something is lowered.
pub struct Deeper<'a> {
    pub expr: spec_fn(BodyView<'a>, Expr, Option<TyView>) -> (BodyView<'a>, Value),
    pub block: spec_fn(BodyView<'a>, Block) -> BodyView<'a>,
    pub stmts: spec_fn(BodyView<'a>, Seq<Stmt>, Span) -> BodyView<'a>,
    pub test: spec_fn(BodyView<'a>, Value, Pattern, BlockId) -> BodyView<'a>,
    pub bind: spec_fn(BodyView<'a>, Binding, Value, Span) -> BodyView<'a>,
}

/// How something is lowered where at most `fuel` more levels may be nested
/// inside it. What is nested more deeply is a gap.
pub open spec fn deeper<'a>(fuel: nat) -> Deeper<'a>
    decreases fuel,
{
    if fuel == 0 {
        Deeper {
            expr: |b: BodyView<'a>, expr: Expr, wanted: Option<TyView>|
                b.missing(expr.span, "an expression nested too deeply"@),
            block: |b: BodyView<'a>, block: Block|
                b.gap(block.span, "a block nested too deeply"@),
            stmts: |b: BodyView<'a>, stmts: Seq<Stmt>, span: Span|
                b.gap(span, "a block nested too deeply"@),
            test: |b: BodyView<'a>, subject: Value, pattern: Pattern, fail: BlockId|
                b.gap(pattern.span, "a pattern nested too deeply"@),
            bind: |b: BodyView<'a>, binding: Binding, value: Value, span: Span|
                b.gap(span, "a binding nested too deeply"@),
        }
    } else {
        let inner = deeper::<'a>((fuel - 1) as nat);
        Deeper {
            expr: |b: BodyView<'a>, expr: Expr, wanted: Option<TyView>|
                b.expr_within(expr, wanted, inner),
            block: |b: BodyView<'a>, block: Block| b.block_within(block, inner),
            stmts: |b: BodyView<'a>, stmts: Seq<Stmt>, span: Span|
                b.stmts_within(stmts, inner, stmts.len()),
            test: |b: BodyView<'a>, subject: Value, pattern: Pattern, fail: BlockId|
                b.test_within(subject, pattern, fail, inner),
            bind: |b: BodyView<'a>, binding: Binding, value: Value, span: Span|
                b.bind_within(binding, value, span, inner),
        }
    }
}

impl<'a> BodyView<'a> {
    /// An expression lowered at what context asks for, and what it produces.
    pub open spec fn expr(self, expr: Expr, wanted: Option<TyView>, deeper: Deeper<'a>) -> (
        BodyView<'a>,
        Value,
    ) {
        (deeper.expr)(self, expr, wanted)
    }

    /// A block lowered, in a scope of its own.
    pub open spec fn block(self, block: Block, deeper: Deeper<'a>) -> BodyView<'a> {
        (deeper.block)(self, block)
    }

    /// Statements lowered in order, until one leaves.
    pub open spec fn stmts(self, stmts: Seq<Stmt>, span: Span, deeper: Deeper<'a>) -> BodyView<'a> {
        (deeper.stmts)(self, stmts, span)
    }

    /// A value tested against a pattern, and what it binds bound.
    pub open spec fn test(
        self,
        subject: Value,
        pattern: Pattern,
        fail: BlockId,
        deeper: Deeper<'a>,
    ) -> BodyView<'a> {
        (deeper.test)(self, subject, pattern, fail)
    }

    /// A binding pointed at a value.
    pub open spec fn bind_value(
        self,
        binding: Binding,
        value: Value,
        span: Span,
        deeper: Deeper<'a>,
    ) -> BodyView<'a> {
        (deeper.bind)(self, binding, value, span)
    }
}

impl<'a> Body<'a> {
    /// Lowers `expr`, and gives back the value it produces.
    pub fn expr(&mut self, expr: &'a Expr, wanted: Option<&Ty>, fuel: u32) -> (value: Value)
        ensures
            (final(self)@, value) == old(self)@.expr(*expr, opt_ty(wanted), deeper(fuel as nat)),
        decreases fuel, 0nat, 0nat,
    {
        if fuel == 0 {
            self.missing(expr.span, "an expression nested too deeply")
        } else {
            self.expr_within(expr, wanted, fuel - 1)
        }
    }

    /// Lowers a block, in a scope of its own.
    pub fn block(&mut self, block: &'a Block, fuel: u32)
        ensures
            final(self)@ == old(self)@.block(*block, deeper(fuel as nat)),
        decreases fuel, 0nat, 0nat,
    {
        if fuel == 0 {
            self.gap(block.span, "a block nested too deeply");
        } else {
            self.block_within(block, fuel - 1);
        }
    }

    /// Lowers statements in order. Nothing after a block was left runs, so
    /// nothing after it is lowered.
    pub fn stmts(&mut self, stmts: &'a Vec<Stmt>, span: Span, fuel: u32)
        ensures
            final(self)@ == old(self)@.stmts(stmts@, span, deeper(fuel as nat)),
        decreases fuel, 0nat, 0nat,
    {
        if fuel == 0 {
            self.gap(span, "a block nested too deeply");
        } else {
            self.stmts_within(stmts, fuel - 1);
        }
    }

    /// Tests `subject` against `pattern`, leaving for `fail` where it does not
    /// match, and binding what it binds where it does.
    pub fn test(&mut self, subject: Value, pattern: &'a Pattern, fail: BlockId, fuel: u32)
        ensures
            final(self)@ == old(self)@.test(subject, *pattern, fail, deeper(fuel as nat)),
        decreases fuel, 0nat, 0nat,
    {
        if fuel == 0 {
            self.gap(pattern.span, "a pattern nested too deeply");
        } else {
            self.test_within(subject, pattern, fail, fuel - 1);
        }
    }

    /// Points a binding at a value.
    pub fn bind_value(&mut self, binding: &'a Binding, value: Value, span: Span, fuel: u32)
        ensures
            final(self)@ == old(self)@.bind_value(*binding, value, span, deeper(fuel as nat)),
        decreases fuel, 0nat, 0nat,
    {
        if fuel == 0 {
            self.gap(span, "a binding nested too deeply");
        } else {
            self.bind_within(binding, value, span, fuel - 1);
        }
    }
}

} // verus!
