//! Leaving scopes, and what they deferred.

use vstd::prelude::*;

use crate::ast::Expr;
use crate::inst::{
    Allocation, InstKind, InstKindView, Target, Terminator, TerminatorView, Value, one,
};
use crate::span::Span;
use crate::text::names;
use crate::ty::{Ty, TyView};

use super::kinds::{opt_ty, target_view};
use super::deeper::{Deeper, deeper};
use super::given::{
    ahead, ahead_view, below, below_view, either, either_view, given, is_place, is_place_view,
};
use super::{Body, BodyView, Cleanup, label_view};

verus! {

impl<'a> BodyView<'a> {
    /// Closes the innermost scope, running what it deferred where control reaches
    /// its end.
    #[verifier::opaque]
    pub open spec fn close(self, deeper: Deeper<'a>) -> BodyView<'a> {
        let b = self;
        let b = if !b.left {
            let depth = b.depth();
            let b = b.unwind(below_view(depth), deeper);
            b
        } else {
            b
        };
        let b = b.drop_scope();
        b
    }

    /// A module-level `const` is its initializer, worked out where the name is
    /// read.
    #[verifier::opaque]
    pub open spec fn constant(
        self,
        name: Seq<char>,
        wanted: Option<TyView>,
        span: Span,
        deeper: Deeper<'a>,
    ) -> (BodyView<'a>, Value) {
        let b = self;
        match b.constant_of(name) {
            Some(held) => {
                if b.is_expanding(name) {
                    b.missing(span, "a `const` that reads itself"@)
                } else {
                    let (b, declared) = b.declared_type(held.0);
                    let b = b.begin_constant(name);
                    let (b, value) = b.expr(held.1, either_view(declared, wanted), deeper);
                    let b = b.end_constant();
                    (b, value)
                }
            },
            None => b.missing(span, "a name that is not a local binding"@),
        }
    }

    /// Lowers `expr` for a new holder. A struct is copied when it reaches one, so a
    /// mutation through one holder is not observable through another. A value just
    /// built has no other holder, so only one read out of a place is copied.
    #[verifier::opaque]
    pub open spec fn stored(
        self,
        expr: Expr,
        wanted: Option<TyView>,
        deeper: Deeper<'a>,
    ) -> (BodyView<'a>, Value) {
        let b = self;
        let (b, value) = b.expr(expr, wanted, deeper);
        if !is_place_view(expr) {
            (b, value)
        } else {
            let ty = b.type_at(value);
            if !b.is_value_struct(ty) {
                (b, value)
            } else {
                b.emit(
                    InstKindView::CopyValue { value, allocation: Allocation::Managed },
                    ty,
                    expr.span,
                )
            }
        }
    }

    /// Sends a thrown value to the innermost `try` around it, or out of the function
    /// where there is none.
    #[verifier::opaque]
    pub open spec fn raise(self, thrown: Value, span: Span, deeper: Deeper<'a>) -> BodyView<'a> {
        let b = self;
        match b.handler() {
            Some(handler) => {
                let b = b.unwind_from(handler.frame, deeper);
                let carried = b.defs_of(handler.carried);
                let b = b.terminate(
                    TerminatorView::Jump(target_view(handler.block, ahead_view(thrown, carried))),
                );
                b
            },
            None => {
                if !b.throws {
                    b.gap(span, "a throw the call graph did not reach"@)
                } else {
                    let b = b.unwind_from(0, deeper);
                    let ty = b.function.result;
                    let (b, raised) = b.variant_with(ty, 1, thrown, span);
                    let b = b.terminate(TerminatorView::Return(raised));
                    b
                }
            },
        }
    }

    /// `break` leaves the loop and `continue` starts its next pass, either the
    /// innermost one or the one a label names.
    #[verifier::opaque]
    pub open spec fn leave(
        self,
        label: Option<Seq<char>>,
        continues: bool,
        span: Span,
        deeper: Deeper<'a>,
    ) -> BodyView<'a> {
        let b = self;
        match b.find_loop(label) {
            Some(found) => {
                let (b, target) = if continues {
                    (b, found.again)
                } else {
                    (b, Some(found.exit))
                };
                match target {
                    Some(block) => {
                        let b = b.unwind_from(found.depth, deeper);
                        let b = b.jump_to(block, found.carried);
                        b
                    },
                    None => b.gap(span, "`continue` inside `repeat`"@),
                }
            },
            None => b.gap(span, "leaving a loop the compiler could not find"@),
        }
    }

    /// A `return` leaves every scope the function has open, so everything they
    /// deferred runs, innermost first.
    #[verifier::opaque]
    pub open spec fn ret(
        self,
        value: Option<&'a Expr>,
        span: Span,
        deeper: Deeper<'a>,
    ) -> BodyView<'a> {
        let b = self;
        let result = b.declared;
        let (b, value) = match value {
            Some(expr) => {
                b.stored(*expr, Some(result), deeper)
            },
            None => {
                b.unit(span)
            },
        };
        let b = b.unwind_from(0, deeper);
        let (b, given) = b.returned(value, span);
        let b = b.terminate(TerminatorView::Return(given));
        b
    }

    /// A call that may have thrown says which happened, so the caller reads what it
    /// returned on one path and sends what it threw on outward on the other.
    #[verifier::opaque]
    pub open spec fn caught_or_raised(
        self,
        outcome: Value,
        result: TyView,
        span: Span,
        deeper: Deeper<'a>,
    ) -> (BodyView<'a>, Value) {
        let b = self;
        let (b, raised) = b.tag_test(outcome, 1, span);
        let (b, unwinding) = b.add_block(span);
        let (b, came_back) = b.add_block(span);
        let b = b.branch(raised, unwinding, came_back);
        let b = b.switch_to(unwinding);
        let (b, thrown) = b.payload(outcome, 1, TyView::Dynamic, span);
        let b = b.raise(thrown, span, deeper);
        let b = b.switch_to(came_back);
        b.payload(outcome, 0, result, span)
    }
}

impl<'a> Body<'a> {
    /// Closes the innermost scope, running what it deferred where control reaches
    /// its end.
    pub fn close(&mut self, fuel: u32)
        ensures
            final(self)@ == old(self)@.close(deeper(fuel as nat)),
        decreases fuel, 3nat, 0nat,
    {
        proof {
            reveal(BodyView::close);
        }
        if !self.has_left() {
            let depth = self.depth();
            self.unwind(below(depth), fuel);
        }
        self.drop_scope();
    }

    /// A module-level `const` is its initializer, worked out where the name is
    /// read.
    pub fn constant(
        &mut self,
        name: &str,
        wanted: Option<&Ty>,
        span: Span,
        fuel: u32,
    ) -> (produced: Value)
        ensures
            (final(self)@, produced) == old(self)@.constant(
                name@,
                opt_ty(wanted),
                span,
                deeper(fuel as nat),
            ),
        decreases fuel, 1nat, 0nat,
    {
        proof {
            reveal(BodyView::constant);
        }
        let held = match self.constant_of(name) {
            Some(held) => held,
            None => {
                return self.missing(span, "a name that is not a local binding");
            },
        };
        if self.is_expanding(name) {
            return self.missing(span, "a `const` that reads itself");
        }
        let declared = self.declared_type(held.0);
        self.begin_constant(name);
        let value = self.expr(held.1, either(&declared, wanted), fuel);
        self.end_constant();
        value
    }

    /// Lowers `expr` for a new holder. A struct is copied when it reaches one, so a
    /// mutation through one holder is not observable through another. A value just
    /// built has no other holder, so only one read out of a place is copied.
    pub fn stored(&mut self, expr: &'a Expr, wanted: Option<&Ty>, fuel: u32) -> (produced: Value)
        ensures
            (final(self)@, produced) == old(self)@.stored(
                *expr,
                opt_ty(wanted),
                deeper(fuel as nat),
            ),
        decreases fuel, 1nat, 0nat,
    {
        proof {
            reveal(BodyView::stored);
        }
        let value = self.expr(expr, wanted, fuel);
        if !is_place(expr) {
            return value;
        }
        let ty = self.type_at(value);
        if !self.is_value_struct(&ty) {
            return value;
        }
        self.emit(InstKind::CopyValue { value, allocation: Allocation::Managed }, ty, expr.span)
    }

    /// Sends a thrown value to the innermost `try` around it, or out of the function
    /// where there is none.
    pub fn raise(&mut self, thrown: Value, span: Span, fuel: u32)
        ensures
            final(self)@ == old(self)@.raise(thrown, span, deeper(fuel as nat)),
        decreases fuel, 4nat, 0nat,
    {
        proof {
            reveal(BodyView::raise);
        }
        match self.handler() {
            Some(handler) => {
                self.unwind_from(handler.frame, fuel);
                let carried = self.defs_of(&handler.carried);
                self.terminate(
                    Terminator::Jump(Target::new(handler.block, ahead(thrown, &carried))),
                );
            },
            None => {
                if !self.throws {
                    self.gap(span, "a throw the call graph did not reach");
                    return;
                }
                // Leaving the function leaves every scope it has open.
                self.unwind_from(0, fuel);
                let ty = self.function.result.clone();
                let raised = self.variant_with(&ty, 1, thrown, span);
                self.terminate(Terminator::Return(raised));
            },
        }
    }

    /// `break` leaves the loop and `continue` starts its next pass, either the
    /// innermost one or the one a label names.
    pub fn leave(&mut self, label: Option<&'a String>, continues: bool, span: Span, fuel: u32)
        ensures
            final(self)@ == old(self)@.leave(
                label_view(label),
                continues,
                span,
                deeper(fuel as nat),
            ),
        decreases fuel, 4nat, 0nat,
    {
        proof {
            reveal(BodyView::leave);
        }
        let found = match self.find_loop(label) {
            Some(found) => found,
            None => {
                self.gap(span, "leaving a loop the compiler could not find");
                return;
            },
        };
        let target = if continues {
            found.again
        } else {
            Some(found.exit)
        };
        // A `repeat` condition reads what the body declared, so it is lowered at the
        // end of the body rather than in a block a `continue` could jump to.
        let block = match target {
            Some(block) => block,
            None => {
                self.gap(span, "`continue` inside `repeat`");
                return;
            },
        };
        // Leaving a loop leaves every scope inside it, so each one runs what it
        // deferred, innermost first.
        self.unwind_from(found.depth, fuel);
        self.jump_to(block, &found.carried);
    }

    /// A `return` leaves every scope the function has open, so everything they
    /// deferred runs, innermost first.
    pub fn ret(&mut self, value: Option<&'a Expr>, span: Span, fuel: u32)
        ensures
            final(self)@ == old(self)@.ret(value, span, deeper(fuel as nat)),
        decreases fuel, 4nat, 0nat,
    {
        proof {
            reveal(BodyView::ret);
        }
        let result = self.declared.clone();
        let value = match value {
            Some(expr) => {
                self.stored(expr, Some(&result), fuel)
            },
            None => {
                self.unit(span)
            },
        };
        self.unwind_from(0, fuel);
        let given = self.returned(value, span);
        self.terminate(Terminator::Return(given));
    }

    /// A call that may have thrown says which happened, so the caller reads what it
    /// returned on one path and sends what it threw on outward on the other.
    pub fn caught_or_raised(
        &mut self,
        outcome: Value,
        result: Ty,
        span: Span,
        fuel: u32,
    ) -> (produced: Value)
        ensures
            (final(self)@, produced) == old(self)@.caught_or_raised(
                outcome,
                result@,
                span,
                deeper(fuel as nat),
            ),
        decreases fuel, 5nat, 0nat,
    {
        proof {
            reveal(BodyView::caught_or_raised);
        }
        let raised = self.tag_test(outcome, 1, span);
        let unwinding = self.add_block(span);
        let came_back = self.add_block(span);
        self.branch(raised, unwinding, came_back);
        self.switch_to(unwinding);
        let thrown = self.payload(outcome, 1, Ty::Dynamic, span);
        self.raise(thrown, span, fuel);
        self.switch_to(came_back);
        self.payload(outcome, 0, result, span)
    }
}

impl<'a> BodyView<'a> {
    /// The first `count` of what a scope deferred run, the last of them first.
    /// A `finally` that leaves where it is written ends it.
    #[verifier::opaque]
    pub open spec fn clean(self, held: Seq<Cleanup<'a>>, deeper: Deeper<'a>, count: nat) -> BodyView<'a>
        decreases count,
    {
        if count == 0 {
            self
        } else {
            match held[count - 1] {
                Cleanup::Deferred(call) => {
                    let (b, _) = self.expr(*call, None, deeper);
                    b.clean(held, deeper, (count - 1) as nat)
                },
                Cleanup::Finally(block) => {
                    let b = self.block(*block, deeper);
                    if b.left {
                        b.gap(block.span, "a `finally` that leaves where it is written"@)
                    } else {
                        b.clean(held, deeper, (count - 1) as nat)
                    }
                },
            }
        }
    }

    /// What scope `frame` deferred run, in reverse order of registration.
    #[verifier::opaque]
    pub open spec fn unwind(self, frame: nat, deeper: Deeper<'a>) -> BodyView<'a> {
        let held = self.cleanups(frame);
        self.clean(held, deeper, held.len())
    }

    /// What the scopes from `depth` up to `top` deferred run, innermost first.
    #[verifier::opaque]
    pub open spec fn unwind_between(self, depth: nat, top: nat, deeper: Deeper<'a>) -> BodyView<'a>
        decreases top,
    {
        if top <= depth {
            self
        } else {
            self.unwind((top - 1) as nat, deeper).unwind_between(depth, (top - 1) as nat, deeper)
        }
    }

    /// What every scope from `depth` outward deferred run, innermost first, which
    /// is what leaving several of them at once does.
    #[verifier::opaque]
    pub open spec fn unwind_from(self, depth: nat, deeper: Deeper<'a>) -> BodyView<'a> {
        self.unwind_between(depth, self.depth(), deeper)
    }
}

impl<'a> Body<'a> {
    fn clean(&mut self, held: &Vec<Cleanup<'a>>, count: usize, fuel: u32)
        requires
            count <= held@.len(),
        ensures
            final(self)@ == old(self)@.clean(held@, deeper(fuel as nat), count as nat),
        decreases fuel, 1nat, count,
    {
        proof {
            reveal(BodyView::clean);
        }
        if count > 0 {
            match held[count - 1] {
                Cleanup::Deferred(call) => {
                    let _ = self.expr(call, None, fuel);
                    self.clean(held, count - 1, fuel);
                },
                Cleanup::Finally(block) => {
                    self.block(block, fuel);
                    if self.has_left() {
                        self.gap(block.span, "a `finally` that leaves where it is written");
                    } else {
                        self.clean(held, count - 1, fuel);
                    }
                },
            }
        }
    }

    /// Runs what scope `frame` deferred, in reverse order of registration.
    pub fn unwind(&mut self, frame: usize, fuel: u32)
        ensures
            final(self)@ == old(self)@.unwind(frame as nat, deeper(fuel as nat)),
        decreases fuel, 2nat, 0nat,
    {
        proof {
            reveal(BodyView::unwind);
        }
        let held = self.cleanups(frame);
        self.clean(&held, held.len(), fuel);
    }

    /// Runs what every scope from `depth` outward deferred, innermost first,
    /// which is what leaving several of them at once does.
    pub fn unwind_from(&mut self, depth: usize, fuel: u32)
        ensures
            final(self)@ == old(self)@.unwind_from(depth as nat, deeper(fuel as nat)),
        decreases fuel, 3nat, 0nat,
    {
        let ghost start = self@;
        let ghost inner = deeper(fuel as nat);
        let mut top: usize = self.depth();
        proof {
            reveal(BodyView::unwind_from);
        }
        while top > depth
            invariant
                inner == deeper(fuel as nat),
                start.unwind_from(depth as nat, inner) == self@.unwind_between(
                    depth as nat,
                    top as nat,
                    inner,
                ),
            decreases top,
        {
            proof {
                reveal(BodyView::unwind_between);
            }
            self.unwind(top - 1, fuel);
            top -= 1;
        }
        proof {
            reveal(BodyView::unwind_between);
        }
    }
}

} // verus!
