//! The steps a body is lowered in.

use vstd::prelude::*;

use crate::ast::Expr;
use crate::inst::{
    Allocation, BinaryOp, Const, ConstView, InstKind, InstKindView, Target, TargetView, Terminator,
    TerminatorView, Value, one,
};
use crate::program::BlockId;
use crate::span::Span;
use crate::text::names;
use crate::ty::{Ty, TyView, maybe_ty};

use super::kinds::{
    args_given, args_given_view, displaying, displaying_view, is_int, is_int_view, is_ty,
    is_ty_view, opt_ty, optional, optional_inner, optional_inner_view, optional_view, same_ty,
    same_ty_view, seq1, shown_by, shown_by_view, target_view, thrown_or, thrown_or_view,
};
use super::{Body, BodyView};

verus! {

impl<'a> BodyView<'a> {
    /// A value standing in for one lowering could not build. It keeps the function
    /// well formed; the gap beside it says the program did not lower.
    #[verifier::opaque]
    pub open spec fn missing(self, span: Span, what: Seq<char>) -> (BodyView<'a>, Value) {
        let b = self;
        let b = b.gap(span, what);
        b.emit(InstKindView::Const(ConstView::Unit), TyView::Never, span)
    }

    /// The one value of the unit type.
    #[verifier::opaque]
    pub open spec fn unit(self, span: Span) -> (BodyView<'a>, Value) {
        let b = self;
        b.emit(InstKindView::Const(ConstView::Unit), TyView::Unit, span)
    }

    /// What `var` holds now: its slot's contents where it has one, and its value
    /// otherwise.
    #[verifier::opaque]
    pub open spec fn read_var(self, var: u32, span: Span) -> (BodyView<'a>, Value) {
        let b = self;
        match b.slot_of(var) {
            Some(slot) => {
                let ty = b.slot_type(slot);
                b.emit(InstKindView::SlotGet { slot }, ty, span)
            },
            None => {
                (b, b.def_of(var))
            },
        }
    }

    /// Makes `var` hold `value`, in its slot too where it has one.
    #[verifier::opaque]
    pub open spec fn write_var(self, var: u32, value: Value, span: Span) -> BodyView<'a> {
        let b = self;
        let b = b.set_def(var, value);
        let b = match b.slot_of(var) {
            Some(slot) => {
                let b = b.emit_void(InstKindView::SlotSet { slot, value }, span);
                b
            },
            None => {
                b
            },
        };
        b
    }

    /// Binds a name to a value. One whose address is taken lives in a slot.
    #[verifier::opaque]
    pub open spec fn bind_name(self, name: Seq<char>, value: Value, span: Span) -> BodyView<'a> {
        let b = self;
        let (b, var) = b.declare(name);
        let b = b.set_def(var, value);
        let b = if b.is_addressed(name) {
            let ty = b.type_at(value);
            let (b, slot) = b.add_slot(var, ty, span);
            let b = b.emit_void(InstKindView::SlotSet { slot, value }, span);
            b
        } else {
            b
        };
        b
    }

    /// A value the checker proved holds something, ready to be read through.
    #[verifier::opaque]
    pub open spec fn settled(self, value: Value, span: Span) -> (BodyView<'a>, Value) {
        let b = self;
        let held = b.type_at(value);
        match optional_inner_view(held) {
            Some(inner) => {
                b.emit(InstKindView::Unwrap { value }, inner, span)
            },
            None => {
                (b, value)
            },
        }
    }

    /// The type both operands of an operator are read at.
    #[verifier::opaque]
    pub open spec fn operand_type(self, left: Expr, right: Expr) -> (BodyView<'a>, TyView) {
        let b = self;
        match b.known_type(left) {
            Some(ty) => {
                (b, ty)
            },
            None => {
                match b.known_type(right) {
                    Some(ty) => {
                        (b, ty)
                    },
                    None => {
                        b.recorded(left.span)
                    },
                }
            },
        }
    }

    /// The type a numeric literal takes: what context asked for, or what the
    /// checker settled it to where nothing did.
    #[verifier::opaque]
    pub open spec fn numeric(self, wanted: Option<TyView>, span: Span) -> (BodyView<'a>, TyView) {
        let b = self;
        match wanted {
            Some(ty) => {
                match optional_inner_view(ty) {
                    Some(inner) => {
                        (b, inner)
                    },
                    None => {
                        (b, ty)
                    },
                }
            },
            None => {
                b.recorded(span)
            },
        }
    }

    /// The type context asked for, or the one the checker settled on where nothing
    /// did.
    #[verifier::opaque]
    pub open spec fn settled_type(
        self,
        wanted: Option<TyView>,
        span: Span,
    ) -> (BodyView<'a>, TyView) {
        let b = self;
        match wanted {
            Some(ty) => {
                (b, ty)
            },
            None => {
                b.recorded(span)
            },
        }
    }

    /// What `Return` gives back for a value the function returned. Where an
    /// exception can escape, that is one half of what it gives back.
    #[verifier::opaque]
    pub open spec fn returned(self, value: Value, span: Span) -> (BodyView<'a>, Value) {
        let b = self;
        if !b.throws {
            (b, value)
        } else {
            let ty = b.function.result;
            b.emit(InstKindView::MakeEnum { ty: ty, variant: 0, payload: seq1(value) }, ty, span)
        }
    }

    /// A value put where `wanted` is asked for.
    #[verifier::opaque]
    pub open spec fn coerce(
        self,
        value: Value,
        wanted: TyView,
        span: Span,
    ) -> (BodyView<'a>, Value) {
        let b = self;
        let held = b.type_at(value);
        if is_ty_view(optional_inner_view(wanted), held) {
            b.emit(InstKindView::MakeSome { value }, wanted, span)
        } else {
            if same_ty_view(held, wanted) {
                (b, value)
            } else {
                if same_ty_view(wanted, TyView::Dynamic) {
                    b.emit(InstKindView::MakeDyn { interface: None, value }, TyView::Dynamic, span)
                } else {
                    match b.interface_id(wanted) {
                        Some(interface) => {
                            b.emit(
                                InstKindView::MakeDyn { interface: Some(interface), value },
                                wanted,
                                span,
                            )
                        },
                        None => {
                            (b, value)
                        },
                    }
                }
            }
        }
    }

    /// Whether `subject` holds the variant `tag` names.
    #[verifier::opaque]
    pub open spec fn tag_test(self, subject: Value, tag: u32, span: Span) -> (BodyView<'a>, Value) {
        let b = self;
        let (b, held) = b.emit(InstKindView::GetTag { value: subject }, TyView::integer(), span);
        let (b, wanted) = b.emit(
            InstKindView::Const(ConstView::Int(tag as u64)),
            TyView::integer(),
            span,
        );
        b.emit(
            InstKindView::Binary { op: BinaryOp::Equal, left: held, right: wanted },
            TyView::Bool,
            span,
        )
    }

    /// Leaves for `then` where `condition` holds, and for `otherwise` where it does
    /// not.
    #[verifier::opaque]
    pub open spec fn branch(
        self,
        condition: Value,
        then: BlockId,
        otherwise: BlockId,
    ) -> BodyView<'a> {
        let b = self;
        let b = b.terminate(
            TerminatorView::Branch {
                condition,
                then: TargetView::to(then),
                otherwise: TargetView::to(otherwise),
            },
        );
        b
    }

    /// Leaves for `block`, passing one value.
    #[verifier::opaque]
    pub open spec fn jump_with(self, block: BlockId, value: Value) -> BodyView<'a> {
        let b = self;
        let b = b.terminate(TerminatorView::Jump(target_view(block, seq1(value))));
        b
    }

    /// Carries on where `test` held, and leaves for `fail` where it did not.
    #[verifier::opaque]
    pub open spec fn check(self, test: Value, fail: BlockId, span: Span) -> BodyView<'a> {
        let b = self;
        let (b, held) = b.add_block(span);
        let b = b.branch(test, held, fail);
        let b = b.switch_to(held);
        b
    }

    /// An enum value of a variant that carries one value.
    #[verifier::opaque]
    pub open spec fn variant_with(
        self,
        ty: TyView,
        variant: u32,
        value: Value,
        span: Span,
    ) -> (BodyView<'a>, Value) {
        let b = self;
        b.emit(InstKindView::MakeEnum { ty: ty, variant, payload: seq1(value) }, ty, span)
    }

    /// What an asynchronous call that did not throw completed with.
    #[verifier::opaque]
    pub open spec fn completed_result(
        self,
        value: Value,
        result: TyView,
        span: Span,
    ) -> (BodyView<'a>, Value) {
        let b = self;
        let ty = thrown_or_view(result);
        b.variant_with(ty, 0, value, span)
    }

    /// The task an asynchronous call gives back, completed with `value`.
    #[verifier::opaque]
    pub open spec fn completed_task(
        self,
        value: Value,
        task: TyView,
        span: Span,
    ) -> (BodyView<'a>, Value) {
        let b = self;
        b.emit(
            InstKindView::MakeStruct {
                ty: task,
                fields: seq1(value),
                allocation: Allocation::Managed,
            },
            task,
            span,
        )
    }

    /// A read whose result the checker may have proved holds something: it reads as
    /// what it holds.
    #[verifier::opaque]
    pub open spec fn narrowed(
        self,
        declared: Option<TyView>,
        result: TyView,
        read: InstKindView,
        span: Span,
    ) -> (BodyView<'a>, Value) {
        let b = self;
        if optional_inner_view(result).is_none() && is_ty_view(declared, optional_view(result)) {
            let (b, stored) = b.emit(read, optional_view(result), span);
            b.emit(InstKindView::Unwrap { value: stored }, result, span)
        } else {
            b.emit(read, result, span)
        }
    }

    /// A value as text.
    #[verifier::opaque]
    pub open spec fn display(self, value: Value, span: Span) -> (BodyView<'a>, Value) {
        let b = self;
        let ty = b.type_at(value);
        if same_ty_view(ty, TyView::Str) {
            (b, value)
        } else {
            if is_int_view(ty) {
                b.emit(InstKindView::DisplayValue { value }, TyView::Str, span)
            } else {
                if same_ty_view(ty, TyView::Bool) {
                    let (b, yes) = b.add_block(span);
                    let (b, no) = b.add_block(span);
                    let (b, join) = b.add_block(span);
                    let b = b.branch(value, yes, no);
                    let b = b.switch_to(yes);
                    let (b, text) = b.emit(
                        InstKindView::Const(ConstView::Str("true"@)),
                        TyView::Str,
                        span,
                    );
                    let b = b.jump_with(join, text);
                    let b = b.switch_to(no);
                    let (b, text) = b.emit(
                        InstKindView::Const(ConstView::Str("false"@)),
                        TyView::Str,
                        span,
                    );
                    let b = b.jump_with(join, text);
                    let b = b.switch_to(join);
                    b.add_block_param(join, TyView::Str, span)
                } else {
                    let shown = shown_by_view(ty, b.context.displays);
                    match shown {
                        Some(callee) => {
                            let type_args = args_given_view(ty);
                            b.emit(
                                InstKindView::Call { callee, type_args, args: seq1(value) },
                                TyView::Str,
                                span,
                            )
                        },
                        None => {
                            let what = displaying_view(ty);
                            b.missing(span, what)
                        },
                    }
                }
            }
        }
    }

    /// Gives `block` a parameter for each carried binding, typed as the binding is
    /// now.
    #[verifier::opaque]
    pub open spec fn add_params(
        self,
        block: BlockId,
        carried: Seq<u32>,
        span: Span,
        count: nat,
    ) -> BodyView<'a>
        decreases count,
    {
        if count == 0 {
            self
        } else {
            let b = self.add_params(block, carried, span, (count - 1) as nat);
            let i = (count - 1) as nat;
            let var = carried[i as int];
            let held = b.def_of(var);
            let ty = b.type_at(held);
            let (b, _) = b.add_block_param(block, ty, span);
            b
        }
    }

    /// Points each carried binding at what it is now.
    #[verifier::opaque]
    pub open spec fn set_defs(
        self,
        carried: Seq<u32>,
        values: Seq<Value>,
        count: nat,
    ) -> BodyView<'a>
        decreases count,
    {
        if count == 0 {
            self
        } else {
            let b = self.set_defs(carried, values, (count - 1) as nat);
            let i = (count - 1) as nat;
            let b = if i < values.len() {
                let b = b.set_def(carried[i as int], values[i as int]);
                b
            } else {
                b
            };
            b
        }
    }

    /// Points each carried binding at the parameter `block` receives it in.
    #[verifier::opaque]
    pub open spec fn bind_params(self, block: BlockId, carried: Seq<u32>) -> BodyView<'a> {
        let b = self;
        let params = b.params_of(block);
        let b = b.set_defs(carried, params, carried.len());
        b
    }

    /// Leaves for `block`, passing what each carried binding holds.
    #[verifier::opaque]
    pub open spec fn jump_to(self, block: BlockId, carried: Seq<u32>) -> BodyView<'a> {
        let b = self;
        let args = b.defs_of(carried);
        let b = b.terminate(TerminatorView::Jump(target_view(block, args)));
        b
    }

    /// A branch on whether a `Result` holds an error.
    #[verifier::opaque]
    pub open spec fn error_test(
        self,
        result: Value,
        failed: BlockId,
        succeeded: BlockId,
        span: Span,
    ) -> BodyView<'a> {
        let b = self;
        let (b, is_err) = b.tag_test(result, 1, span);
        let b = b.branch(is_err, failed, succeeded);
        b
    }

    /// What a variant of a value carries.
    #[verifier::opaque]
    pub open spec fn payload(
        self,
        value: Value,
        variant: u32,
        ty: TyView,
        span: Span,
    ) -> (BodyView<'a>, Value) {
        let b = self;
        b.emit(InstKindView::GetPayload { value, variant, field: 0 }, ty, span)
    }
}

impl<'a> Body<'a> {
    /// A value standing in for one lowering could not build. It keeps the function
    /// well formed; the gap beside it says the program did not lower.
    pub fn missing(&mut self, span: Span, what: &str) -> (produced: Value)
        ensures
            (final(self)@, produced) == old(self)@.missing(span, what@),
    {
        proof {
            reveal(BodyView::missing);
        }
        self.gap(span, what);
        self.emit(InstKind::Const(Const::Unit), Ty::Never, span)
    }

    /// The one value of the unit type.
    pub fn unit(&mut self, span: Span) -> (produced: Value)
        ensures
            (final(self)@, produced) == old(self)@.unit(span),
    {
        proof {
            reveal(BodyView::unit);
        }
        self.emit(InstKind::Const(Const::Unit), Ty::Unit, span)
    }

    /// What `var` holds now: its slot's contents where it has one, and its value
    /// otherwise.
    pub fn read_var(&mut self, var: u32, span: Span) -> (produced: Value)
        ensures
            (final(self)@, produced) == old(self)@.read_var(var, span),
    {
        proof {
            reveal(BodyView::read_var);
        }
        match self.slot_of(var) {
            Some(slot) => {
                let ty = self.slot_type(slot);
                self.emit(InstKind::SlotGet { slot }, ty, span)
            },
            None => {
                self.def_of(var)
            },
        }
    }

    /// Makes `var` hold `value`, in its slot too where it has one.
    pub fn write_var(&mut self, var: u32, value: Value, span: Span)
        ensures
            final(self)@ == old(self)@.write_var(var, value, span),
    {
        proof {
            reveal(BodyView::write_var);
        }
        self.set_def(var, value);
        match self.slot_of(var) {
            Some(slot) => {
                self.emit_void(InstKind::SlotSet { slot, value }, span);
            },
            None => {},
        }
    }

    /// Binds a name to a value. One whose address is taken lives in a slot.
    pub fn bind_name(&mut self, name: &str, value: Value, span: Span)
        ensures
            final(self)@ == old(self)@.bind_name(name@, value, span),
    {
        proof {
            reveal(BodyView::bind_name);
        }
        let var = self.declare(name);
        self.set_def(var, value);
        if self.is_addressed(name) {
            let ty = self.type_at(value);
            let slot = self.add_slot(var, ty, span);
            self.emit_void(InstKind::SlotSet { slot, value }, span);
        }
    }

    /// A value the checker proved holds something, ready to be read through.
    pub fn settled(&mut self, value: Value, span: Span) -> (produced: Value)
        ensures
            (final(self)@, produced) == old(self)@.settled(value, span),
    {
        proof {
            reveal(BodyView::settled);
        }
        let held = self.type_at(value);
        match optional_inner(&held) {
            Some(inner) => {
                self.emit(InstKind::Unwrap { value }, inner, span)
            },
            None => {
                value
            },
        }
    }

    /// The type both operands of an operator are read at.
    pub fn operand_type(&mut self, left: &'a Expr, right: &'a Expr) -> (produced: Ty)
        ensures
            (final(self)@, produced@) == old(self)@.operand_type(*left, *right),
    {
        proof {
            reveal(BodyView::operand_type);
        }
        match self.known_type(left) {
            Some(ty) => {
                ty
            },
            None => {
                match self.known_type(right) {
                    Some(ty) => {
                        ty
                    },
                    None => {
                        self.recorded(left.span)
                    },
                }
            },
        }
    }

    /// The type a numeric literal takes: what context asked for, or what the
    /// checker settled it to where nothing did.
    pub fn numeric(&mut self, wanted: Option<&Ty>, span: Span) -> (produced: Ty)
        ensures
            (final(self)@, produced@) == old(self)@.numeric(opt_ty(wanted), span),
    {
        proof {
            reveal(BodyView::numeric);
        }
        match wanted {
            Some(ty) => {
                match optional_inner(ty) {
                    Some(inner) => {
                        inner
                    },
                    None => {
                        ty.clone()
                    },
                }
            },
            None => {
                self.recorded(span)
            },
        }
    }

    /// The type context asked for, or the one the checker settled on where nothing
    /// did.
    pub fn settled_type(&mut self, wanted: Option<&Ty>, span: Span) -> (produced: Ty)
        ensures
            (final(self)@, produced@) == old(self)@.settled_type(opt_ty(wanted), span),
    {
        proof {
            reveal(BodyView::settled_type);
        }
        match wanted {
            Some(ty) => {
                ty.clone()
            },
            None => {
                self.recorded(span)
            },
        }
    }

    /// What `Return` gives back for a value the function returned. Where an
    /// exception can escape, that is one half of what it gives back.
    pub fn returned(&mut self, value: Value, span: Span) -> (produced: Value)
        ensures
            (final(self)@, produced) == old(self)@.returned(value, span),
    {
        proof {
            reveal(BodyView::returned);
        }
        if !self.throws {
            return value;
        }
        let ty = self.function.result.clone();
        self.emit(InstKind::MakeEnum { ty: ty.clone(), variant: 0, payload: one(value) }, ty, span)
    }

    /// A value put where `wanted` is asked for.
    pub fn coerce(&mut self, value: Value, wanted: &Ty, span: Span) -> (produced: Value)
        ensures
            (final(self)@, produced) == old(self)@.coerce(value, wanted@, span),
    {
        proof {
            reveal(BodyView::coerce);
        }
        let held = self.type_at(value);
        if is_ty(&optional_inner(wanted), &held) {
            return self.emit(InstKind::MakeSome { value }, wanted.clone(), span);
        }
        if same_ty(&held, wanted) {
            return value;
        }
        // What a value is is not written down, so it carries it.
        if same_ty(wanted, &Ty::Dynamic) {
            return self.emit(InstKind::MakeDyn { interface: None, value }, Ty::Dynamic, span);
        }
        // A value used through an interface carries which implementation to
        // dispatch to.
        match self.interface_id(wanted) {
            Some(interface) => {
                self.emit(
                    InstKind::MakeDyn { interface: Some(interface), value },
                    wanted.clone(),
                    span,
                )
            },
            None => {
                value
            },
        }
    }

    /// Whether `subject` holds the variant `tag` names.
    pub fn tag_test(&mut self, subject: Value, tag: u32, span: Span) -> (produced: Value)
        ensures
            (final(self)@, produced) == old(self)@.tag_test(subject, tag, span),
    {
        proof {
            reveal(BodyView::tag_test);
        }
        let held = self.emit(InstKind::GetTag { value: subject }, Ty::integer(), span);
        let wanted = self.emit(InstKind::Const(Const::Int(tag as u64)), Ty::integer(), span);
        self.emit(
            InstKind::Binary { op: BinaryOp::Equal, left: held, right: wanted },
            Ty::Bool,
            span,
        )
    }

    /// Leaves for `then` where `condition` holds, and for `otherwise` where it does
    /// not.
    pub fn branch(&mut self, condition: Value, then: BlockId, otherwise: BlockId)
        ensures
            final(self)@ == old(self)@.branch(condition, then, otherwise),
    {
        proof {
            reveal(BodyView::branch);
        }
        self.terminate(
            Terminator::Branch {
                condition,
                then: Target::to(then),
                otherwise: Target::to(otherwise),
            },
        );
    }

    /// Leaves for `block`, passing one value.
    pub fn jump_with(&mut self, block: BlockId, value: Value)
        ensures
            final(self)@ == old(self)@.jump_with(block, value),
    {
        proof {
            reveal(BodyView::jump_with);
        }
        self.terminate(Terminator::Jump(Target::new(block, one(value))));
    }

    /// Carries on where `test` held, and leaves for `fail` where it did not.
    pub fn check(&mut self, test: Value, fail: BlockId, span: Span)
        ensures
            final(self)@ == old(self)@.check(test, fail, span),
    {
        proof {
            reveal(BodyView::check);
        }
        let held = self.add_block(span);
        self.branch(test, held, fail);
        self.switch_to(held);
    }

    /// An enum value of a variant that carries one value.
    pub fn variant_with(
        &mut self,
        ty: &Ty,
        variant: u32,
        value: Value,
        span: Span,
    ) -> (produced: Value)
        ensures
            (final(self)@, produced) == old(self)@.variant_with(ty@, variant, value, span),
    {
        proof {
            reveal(BodyView::variant_with);
        }
        self.emit(
            InstKind::MakeEnum { ty: ty.clone(), variant, payload: one(value) },
            ty.clone(),
            span,
        )
    }

    /// What an asynchronous call that did not throw completed with.
    pub fn completed_result(&mut self, value: Value, result: &Ty, span: Span) -> (produced: Value)
        ensures
            (final(self)@, produced) == old(self)@.completed_result(value, result@, span),
    {
        proof {
            reveal(BodyView::completed_result);
        }
        let ty = thrown_or(result.clone());
        self.variant_with(&ty, 0, value, span)
    }

    /// The task an asynchronous call gives back, completed with `value`.
    pub fn completed_task(&mut self, value: Value, task: &Ty, span: Span) -> (produced: Value)
        ensures
            (final(self)@, produced) == old(self)@.completed_task(value, task@, span),
    {
        proof {
            reveal(BodyView::completed_task);
        }
        self.emit(
            InstKind::MakeStruct {
                ty: task.clone(),
                fields: one(value),
                allocation: Allocation::Managed,
            },
            task.clone(),
            span,
        )
    }

    /// A read whose result the checker may have proved holds something: it reads as
    /// what it holds.
    pub fn narrowed(
        &mut self,
        declared: Option<Ty>,
        result: &Ty,
        read: InstKind,
        span: Span,
    ) -> (produced: Value)
        ensures
            (final(self)@, produced) == old(self)@.narrowed(
                maybe_ty(declared),
                result@,
                read@,
                span,
            ),
    {
        proof {
            reveal(BodyView::narrowed);
        }
        if optional_inner(result).is_none() && is_ty(&declared, &optional(result.clone())) {
            let stored = self.emit(read, optional(result.clone()), span);
            return self.emit(InstKind::Unwrap { value: stored }, result.clone(), span);
        }
        self.emit(read, result.clone(), span)
    }

    /// A value as text.
    pub fn display(&mut self, value: Value, span: Span) -> (produced: Value)
        ensures
            (final(self)@, produced) == old(self)@.display(value, span),
    {
        proof {
            reveal(BodyView::display);
        }
        let ty = self.type_at(value);
        if same_ty(&ty, &Ty::Str) {
            return value;
        }
        if is_int(&ty) {
            return self.emit(InstKind::DisplayValue { value }, Ty::Str, span);
        }
        if same_ty(&ty, &Ty::Bool) {
            let yes = self.add_block(span);
            let no = self.add_block(span);
            let join = self.add_block(span);
            self.branch(value, yes, no);
            self.switch_to(yes);
            let text = self.emit(InstKind::Const(Const::Str("true".to_owned())), Ty::Str, span);
            self.jump_with(join, text);
            self.switch_to(no);
            let text = self.emit(InstKind::Const(Const::Str("false".to_owned())), Ty::Str, span);
            self.jump_with(join, text);
            self.switch_to(join);
            return self.add_block_param(join, Ty::Str, span);
        }
        let shown = shown_by(&ty, self.context.displays);
        match shown {
            Some(callee) => {
                let type_args = args_given(&ty);
                self.emit(InstKind::Call { callee, type_args, args: one(value) }, Ty::Str, span)
            },
            None => {
                let what = displaying(&ty);
                self.missing(span, what.as_str())
            },
        }
    }

    /// Gives `block` a parameter for each carried binding, typed as the binding is
    /// now.
    pub fn add_params(&mut self, block: BlockId, carried: &Vec<u32>, span: Span)
        ensures
            final(self)@ == old(self)@.add_params(block, carried@, span, carried@.len()),
    {
        let ghost start = self@;
        let mut i: usize = 0;
        proof {
            reveal(BodyView::add_params);
        }
        while i < carried.len()
            invariant
                i <= carried.len(),
                self@ == start.add_params(block, carried@, span, i as nat),
            decreases carried.len() - i,
        {
            proof {
                reveal(BodyView::add_params);
            }
            let var = carried[i];
            let held = self.def_of(var);
            let ty = self.type_at(held);
            let _ = self.add_block_param(block, ty, span);
            i += 1;
        }
    }

    /// Points each carried binding at what it is now.
    pub fn set_defs(&mut self, carried: &Vec<u32>, values: &Vec<Value>)
        ensures
            final(self)@ == old(self)@.set_defs(carried@, values@, carried@.len()),
    {
        let ghost start = self@;
        let mut i: usize = 0;
        proof {
            reveal(BodyView::set_defs);
        }
        while i < carried.len()
            invariant
                i <= carried.len(),
                self@ == start.set_defs(carried@, values@, i as nat),
            decreases carried.len() - i,
        {
            proof {
                reveal(BodyView::set_defs);
            }
            if i < values.len() {
                self.set_def(carried[i], values[i]);
            }
            i += 1;
        }
    }

    /// Points each carried binding at the parameter `block` receives it in.
    pub fn bind_params(&mut self, block: BlockId, carried: &Vec<u32>)
        ensures
            final(self)@ == old(self)@.bind_params(block, carried@),
    {
        proof {
            reveal(BodyView::bind_params);
        }
        let params = self.params_of(block);
        self.set_defs(carried, &params);
    }

    /// Leaves for `block`, passing what each carried binding holds.
    pub fn jump_to(&mut self, block: BlockId, carried: &Vec<u32>)
        ensures
            final(self)@ == old(self)@.jump_to(block, carried@),
    {
        proof {
            reveal(BodyView::jump_to);
        }
        let args = self.defs_of(carried);
        self.terminate(Terminator::Jump(Target::new(block, args)));
    }

    /// A branch on whether a `Result` holds an error.
    pub fn error_test(&mut self, result: Value, failed: BlockId, succeeded: BlockId, span: Span)
        ensures
            final(self)@ == old(self)@.error_test(result, failed, succeeded, span),
    {
        proof {
            reveal(BodyView::error_test);
        }
        let is_err = self.tag_test(result, 1, span);
        self.branch(is_err, failed, succeeded);
    }

    /// What a variant of a value carries.
    pub fn payload(&mut self, value: Value, variant: u32, ty: Ty, span: Span) -> (produced: Value)
        ensures
            (final(self)@, produced) == old(self)@.payload(value, variant, ty@, span),
    {
        proof {
            reveal(BodyView::payload);
        }
        self.emit(InstKind::GetPayload { value, variant, field: 0 }, ty, span)
    }
}

} // verus!
