//! Lowering `match` and the patterns it tests.

use vstd::prelude::*;

use crate::ast::{
    ArmBody, Binding, Expr, FieldBinding, FieldPattern, MatchArm, Pattern, PatternKind, Payload,
};
use crate::inst::{
    BinaryOp, InstKind, InstKindView, Terminator, TerminatorView, Trap, UnaryOp, Value, one,
};
use crate::program::{BlockId, views};
use crate::span::Span;
use crate::text::names;
use crate::ty::{Ty, TyView, named_tys, tys};

use super::held::Held;
use super::kinds::{
    index_id, index_id_view, optional, optional_inner, optional_inner_view, tuple_members,
    tuple_members_view,
};
use super::queries::{field_at, field_at_view, field_ty, field_ty_view, name_at, name_at_view};
use super::deeper::{Deeper, deeper};
use super::flow::{bound_name, name_bound, push_arrival};
use super::given::{
    is_nil, is_nil_view, last_name, last_name_view, ty_of, ty_of_view, ty_or_never,
    ty_or_never_view,
};
use super::{Arrival, ArrivalView, Body, BodyView};

verus! {

impl<'a> BodyView<'a> {
    /// The cases are tried in the order they are written, and the first whose
    /// pattern matches and whose guard holds runs.
    #[verifier::opaque]
    pub open spec fn match_stmt(
        self,
        scrutinee: Expr,
        arms: Seq<MatchArm>,
        span: Span,
        deeper: Deeper<'a>,
    ) -> BodyView<'a> {
        let b = self;
        let (b, subject) = b.expr(scrutinee, None, deeper);
        let (b, join) = b.add_block(span);
        let entering = b.saved_defs();
        let (b, arrivals) = b.match_arms(subject, arms, entering, span, deeper, arms.len());
        let b = b.terminate(TerminatorView::Trap(Trap::Unreachable));
        let b = b.join(arrivals, join, span);
        b
    }

    /// Each case in turn, and the paths that reach the end of one.
    #[verifier::opaque]
    pub open spec fn match_arms(
        self,
        subject: Value,
        arms: Seq<MatchArm>,
        entering: Map<u32, Value>,
        span: Span,
        deeper: Deeper<'a>,
        count: nat,
    ) -> (BodyView<'a>, Seq<ArrivalView>)
        decreases count,
    {
        if count == 0 {
            (self, Seq::empty())
        } else {
            let (b, arrivals) = self.match_arms(subject, arms, entering, span, deeper, (count - 1) as nat);
            let i = (count - 1) as nat;
            let (b, next) = b.add_block(span);
            let b = b.open();
            let b = b.arm(subject, arms[i as int], next, span, deeper);
            let b = match arms[i as int].body {
                ArmBody::Block(body) => {
                    let b = b.block(body, deeper);
                    b
                },
                ArmBody::Expr(value) => {
                    let (b, _) = b.expr(value, None, deeper);
                    b
                },
            };
            let (b, arrivals) = if !b.left {
                let arrivals = arrivals.push(b.arrival());
                (b, arrivals)
            } else {
                (b, arrivals)
            };
            let b = b.close(deeper);
            let b = b.switch_to(next);
            let b = b.restore(entering);
            (b, arrivals)
        }
    }

    /// Tests one case, and where it does not hold leaves for `next`. A guard is
    /// tested after the pattern bound what it binds, because the guard reads those
    /// bindings.
    #[verifier::opaque]
    pub open spec fn arm(
        self,
        subject: Value,
        arm: MatchArm,
        next: BlockId,
        span: Span,
        deeper: Deeper<'a>,
    ) -> BodyView<'a> {
        let b = self;
        let b = b.test(subject, arm.pattern, next, deeper);
        let b = match arm.guard {
            Some(asked) => {
                let (b, body) = b.add_block(span);
                let (b, condition) = b.expr(asked, Some(TyView::Bool), deeper);
                let b = b.branch(condition, body, next);
                let b = b.switch_to(body);
                b
            },
            None => {
                b
            },
        };
        b
    }

    /// Tests `subject` against `pattern`, leaving for `fail` where it does not
    /// match, and binding what it binds where it does.
    #[verifier::opaque]
    pub open spec fn test_within(
        self,
        subject: Value,
        pattern: Pattern,
        fail: BlockId,
        deeper: Deeper<'a>,
    ) -> BodyView<'a> {
        let b = self;
        let span = pattern.span;
        match pattern.kind {
            PatternKind::Wildcard => {
                b
            },
            PatternKind::Binding(name) => {
                let (b, var) = b.declare(name@);
                let b = b.set_def(var, subject);
                b
            },
            PatternKind::Or(alternatives) => {
                let (b, decided) = b.alternatives(
                    subject,
                    alternatives@,
                    span,
                    deeper,
                    alternatives@.len(),
                );
                match decided {
                    Some(held) => {
                        match held {
                            Some(test) => {
                                let b = b.check(test, fail, span);
                                b
                            },
                            None => {
                                b
                            },
                        }
                    },
                    None => {
                        b
                    },
                }
            },
            PatternKind::Path { segments, payload } => {
                b.test_path(subject, segments@, payload, fail, span, deeper)
            },
            PatternKind::Tuple(members) => {
                let held = b.type_at(subject);
                match tuple_members_view(held) {
                    Some(types) => {
                        if types.len() != members@.len() {
                            b.gap(span, "a tuple pattern of another length"@)
                        } else {
                            let b = b.test_members(
                                subject,
                                members@,
                                types,
                                fail,
                                span,
                                deeper,
                                members@.len(),
                            );
                            b
                        }
                    },
                    None => b.gap(span, "a tuple pattern over something that is not a tuple"@),
                }
            },
            PatternKind::Literal(_) => {
                let (b, decided) = b.decides(subject, pattern, deeper);
                match decided {
                    Some(test) => {
                        let b = b.check(test, fail, span);
                        b
                    },
                    None => {
                        b.gap(span, "a literal pattern the compiler could not compare"@)
                    },
                }
            },
            PatternKind::Error => {
                b
            },
        }
    }

    /// Tests the variant a path names. A path naming a struct rather than a variant
    /// tests nothing, and reads the fields it lists.
    #[verifier::opaque]
    pub open spec fn test_path(
        self,
        subject: Value,
        segments: Seq<String>,
        payload: Option<Payload>,
        fail: BlockId,
        span: Span,
        deeper: Deeper<'a>,
    ) -> BodyView<'a> {
        let b = self;
        match last_name_view(segments) {
            Some(name) => {
                let held = b.type_at(subject);
                match b.variant_of(held, name@) {
                    Some(tag) => {
                        let (b, test) = b.tag_test(subject, tag, span);
                        let b = b.check(test, fail, span);
                        b.bind_payload(subject, tag, payload, fail, span, deeper)
                    },
                    None => {
                        match payload {
                            Some(Payload::Record(fields)) => {
                                b.bind_fields(subject, fields@, fail, span, deeper)
                            },
                            _ => {
                                b.gap(span, "a path pattern the compiler could not resolve"@)
                            },
                        }
                    },
                }
            },
            None => b.gap(span, "a path pattern naming nothing"@),
        }
    }

    /// The test several alternatives come down to together: nothing where one of
    /// them binds.
    #[verifier::opaque]
    pub open spec fn alternatives(
        self,
        subject: Value,
        list: Seq<Pattern>,
        span: Span,
        deeper: Deeper<'a>,
        count: nat,
    ) -> (BodyView<'a>, Option<Option<Value>>)
        decreases count,
    {
        if count == 0 {
            (self, Some(None))
        } else {
            let (b, held) = self.alternatives(subject, list, span, deeper, (count - 1) as nat);
            let i = (count - 1) as nat;
            let (b, held) = match held {
                Some(earlier) => {
                    let (b, decided) = b.decides(subject, list[i as int], deeper);
                    let (b, held) = match decided {
                        Some(test) => {
                            let (b, held) = match earlier {
                                Some(before) => {
                                    let (b, both) = b.emit(
                                        InstKindView::Binary {
                                            op: BinaryOp::BitOr,
                                            left: before,
                                            right: test,
                                        },
                                        TyView::Bool,
                                        span,
                                    );
                                    let held = Some(Some(both));
                                    (b, held)
                                },
                                None => {
                                    let held = Some(Some(test));
                                    (b, held)
                                },
                            };
                            (b, held)
                        },
                        None => {
                            let b = b.gap(span, "an alternative that binds inside an or-pattern"@);
                            let held = None;
                            (b, held)
                        },
                    };
                    (b, held)
                },
                None => {
                    (b, held)
                },
            };
            (b, held)
        }
    }

    /// Each member of a tuple tested.
    #[verifier::opaque]
    pub open spec fn test_members(
        self,
        subject: Value,
        members: Seq<Pattern>,
        types: Seq<TyView>,
        fail: BlockId,
        span: Span,
        deeper: Deeper<'a>,
        count: nat,
    ) -> BodyView<'a>
        decreases count,
    {
        if count == 0 {
            self
        } else {
            let b = self.test_members(subject, members, types, fail, span, deeper, (count - 1) as nat);
            let i = (count - 1) as nat;
            let (b, element) = b.emit(
                InstKindView::GetElement { tuple: subject, index: index_id_view(i) },
                ty_or_never_view(types, i),
                span,
            );
            let b = b.test(element, members[i as int], fail, deeper);
            b
        }
    }

    /// The test a pattern comes down to, where it is one test and binds nothing.
    #[verifier::opaque]
    pub open spec fn decides(
        self,
        subject: Value,
        pattern: Pattern,
        deeper: Deeper<'a>,
    ) -> (BodyView<'a>, Option<Value>) {
        let b = self;
        let span = pattern.span;
        match pattern.kind {
            PatternKind::Literal(literal) => {
                let held = b.type_at(subject);
                if is_nil_view(*literal) && optional_inner_view(held).is_some() {
                    let (b, some) = b.emit(
                        InstKindView::IsSome { value: subject },
                        TyView::Bool,
                        span,
                    );
                    let (b, absent) = b.emit(
                        InstKindView::Unary { op: UnaryOp::Not, operand: some },
                        TyView::Bool,
                        span,
                    );
                    (b, Some(absent))
                } else {
                    let (b, value) = b.expr(*literal, Some(held), deeper);
                    let (b, equal) = b.emit(
                        InstKindView::Binary { op: BinaryOp::Equal, left: subject, right: value },
                        TyView::Bool,
                        span,
                    );
                    (b, Some(equal))
                }
            },
            PatternKind::Path { segments, payload } => {
                if payload.is_some() {
                    (b, None)
                } else {
                    match last_name_view(segments@) {
                        Some(name) => {
                            let held = b.type_at(subject);
                            match b.variant_of(held, name@) {
                                Some(tag) => {
                                    let (b, test) = b.tag_test(subject, tag, span);
                                    (b, Some(test))
                                },
                                None => (b, None),
                            }
                        },
                        None => (b, None),
                    }
                }
            },
            _ => {
                (b, None)
            },
        }
    }

    /// Matches what a variant carries, once its tag has proved the variant.
    #[verifier::opaque]
    pub open spec fn bind_payload(
        self,
        subject: Value,
        variant: u32,
        payload: Option<Payload>,
        fail: BlockId,
        span: Span,
        deeper: Deeper<'a>,
    ) -> BodyView<'a> {
        let b = self;
        match payload {
            Some(written) => {
                let held = b.type_at(subject);
                match b.payload_of(held, variant) {
                    Some(carried) => {
                        match written {
                            Payload::Tuple(patterns) => {
                                if patterns@.len() != carried.len() {
                                    b.gap(span, "a payload pattern of another length"@)
                                } else {
                                    let b = b.test_payload(
                                        subject,
                                        variant,
                                        patterns@,
                                        carried,
                                        fail,
                                        span,
                                        deeper,
                                        patterns@.len(),
                                    );
                                    b
                                }
                            },
                            Payload::Record(fields) => {
                                match b.payload_names(held, variant) {
                                    Some(declared) => {
                                        let b = b.test_named_payload(
                                            subject,
                                            variant,
                                            fields@,
                                            declared,
                                            carried,
                                            fail,
                                            deeper,
                                            fields@.len(),
                                        );
                                        b
                                    },
                                    None => b.gap(span, "a payload whose fields have no names"@),
                                }
                            },
                        }
                    },
                    None => b.gap(span, "a variant whose payload has no type"@),
                }
            },
            None => {
                b
            },
        }
    }

    /// Each part of a payload tested, by position.
    #[verifier::opaque]
    pub open spec fn test_payload(
        self,
        subject: Value,
        variant: u32,
        patterns: Seq<Pattern>,
        carried: Seq<TyView>,
        fail: BlockId,
        span: Span,
        deeper: Deeper<'a>,
        count: nat,
    ) -> BodyView<'a>
        decreases count,
    {
        if count == 0 {
            self
        } else {
            let b = self.test_payload(subject, variant, patterns, carried, fail, span, deeper, (count - 1) as nat);
            let i = (count - 1) as nat;
            let (b, value) = b.emit(
                InstKindView::GetPayload { value: subject, variant, field: index_id_view(i) },
                ty_or_never_view(carried, i),
                span,
            );
            let b = b.test(value, patterns[i as int], fail, deeper);
            b
        }
    }

    /// Each part of a payload tested, by name.
    #[verifier::opaque]
    pub open spec fn test_named_payload(
        self,
        subject: Value,
        variant: u32,
        fields: Seq<FieldPattern>,
        declared: Seq<Seq<char>>,
        carried: Seq<TyView>,
        fail: BlockId,
        deeper: Deeper<'a>,
        count: nat,
    ) -> BodyView<'a>
        decreases count,
    {
        if count == 0 {
            self
        } else {
            let b = self.test_named_payload(subject, variant, fields, declared, carried, fail, deeper, (count - 1) as nat);
            let i = (count - 1) as nat;
            let b = match name_at_view(declared, fields[i as int].field@) {
                Some(field) => {
                    let (b, value) = b.emit(
                        InstKindView::GetPayload { value: subject, variant, field },
                        ty_of_view(carried, field),
                        fields[i as int].span,
                    );
                    let b = b.bind_field(value, fields[i as int], fail, deeper);
                    b
                },
                None => {
                    let b = b.gap(
                        fields[i as int].span,
                        "a payload field the compiler could not find"@,
                    );
                    b
                },
            };
            b
        }
    }

    /// Matches the fields a struct or record pattern lists.
    #[verifier::opaque]
    pub open spec fn bind_fields(
        self,
        subject: Value,
        fields: Seq<FieldPattern>,
        fail: BlockId,
        span: Span,
        deeper: Deeper<'a>,
    ) -> BodyView<'a> {
        let b = self;
        let held = b.type_at(subject);
        match b.fields_of(held) {
            Some(declared) => {
                let b = b.test_fields(subject, fields, declared, fail, deeper, fields.len());
                b
            },
            None => b.gap(span, "a record pattern over a type with no fields"@),
        }
    }

    /// Each listed field tested.
    #[verifier::opaque]
    pub open spec fn test_fields(
        self,
        subject: Value,
        fields: Seq<FieldPattern>,
        declared: Seq<(Seq<char>, TyView)>,
        fail: BlockId,
        deeper: Deeper<'a>,
        count: nat,
    ) -> BodyView<'a>
        decreases count,
    {
        if count == 0 {
            self
        } else {
            let b = self.test_fields(subject, fields, declared, fail, deeper, (count - 1) as nat);
            let i = (count - 1) as nat;
            let b = match field_at_view(declared, fields[i as int].field@) {
                Some(field) => {
                    let (b, value) = b.emit(
                        InstKindView::GetField { object: subject, field },
                        field_ty_view(declared, field),
                        fields[i as int].span,
                    );
                    let b = b.bind_field(value, fields[i as int], fail, deeper);
                    b
                },
                None => {
                    let b = b.gap(fields[i as int].span, "a field the compiler could not find"@);
                    b
                },
            };
            b
        }
    }

    /// One field of a record pattern: matched against a pattern where it has one,
    /// and bound under the name it is written with otherwise.
    #[verifier::opaque]
    pub open spec fn bind_field(
        self,
        value: Value,
        written: FieldPattern,
        fail: BlockId,
        deeper: Deeper<'a>,
    ) -> BodyView<'a> {
        let b = self;
        match written.pattern {
            Some(pattern) => {
                b.test(value, pattern, fail, deeper)
            },
            None => {
                let (b, var) = b.declare(bound_name(written.field, written.bound_as));
                let b = b.set_def(var, value);
                b
            },
        }
    }

    /// Points a binding at a value.
    #[verifier::opaque]
    pub open spec fn bind_within(
        self,
        binding: Binding,
        value: Value,
        span: Span,
        deeper: Deeper<'a>,
    ) -> BodyView<'a> {
        let b = self;
        match binding {
            Binding::Name(name) => {
                b.bind_name(name@, value, span)
            },
            Binding::Record(fields) => {
                let held = b.type_at(value);
                match b.fields_of(held) {
                    Some(declared) => {
                        let b = b.bind_record(value, fields@, declared, fields@.len());
                        b
                    },
                    None => {
                        let b = b.gap(span, "a record binding over a type with no fields"@);
                        b.declare_binding(binding)
                    },
                }
            },
            Binding::Tuple(bindings) => {
                let held = b.type_at(value);
                match tuple_members_view(held) {
                    Some(members) => {
                        if bindings@.len() != members.len() {
                            let b = b.gap(span, "a tuple binding of another length"@);
                            b.declare_binding(binding)
                        } else {
                            let b = b.bind_members(
                                value,
                                bindings@,
                                members,
                                span,
                                deeper,
                                bindings@.len(),
                            );
                            b
                        }
                    },
                    None => {
                        let b = b.gap(span, "a tuple binding over a value that is not a tuple"@);
                        b.declare_binding(binding)
                    },
                }
            },
            Binding::Error => {
                b
            },
        }
    }

    /// Each field a record binding lists bound.
    #[verifier::opaque]
    pub open spec fn bind_record(
        self,
        value: Value,
        fields: Seq<FieldBinding>,
        declared: Seq<(Seq<char>, TyView)>,
        count: nat,
    ) -> BodyView<'a>
        decreases count,
    {
        if count == 0 {
            self
        } else {
            let b = self.bind_record(value, fields, declared, (count - 1) as nat);
            let i = (count - 1) as nat;
            let b = match field_at_view(declared, fields[i as int].field@) {
                Some(field) => {
                    let (b, read) = b.emit(
                        InstKindView::GetField { object: value, field },
                        field_ty_view(declared, field),
                        fields[i as int].span,
                    );
                    let (b, var) = b.declare(
                        bound_name(fields[i as int].field, fields[i as int].bound_as),
                    );
                    let b = b.set_def(var, read);
                    b
                },
                None => {
                    let b = b.gap(
                        fields[i as int].span,
                        "a record binding field the compiler could not find"@,
                    );
                    b
                },
            };
            b
        }
    }

    /// Each member of a tuple bound.
    #[verifier::opaque]
    pub open spec fn bind_members(
        self,
        value: Value,
        bindings: Seq<Binding>,
        members: Seq<TyView>,
        span: Span,
        deeper: Deeper<'a>,
        count: nat,
    ) -> BodyView<'a>
        decreases count,
    {
        if count == 0 {
            self
        } else {
            let b = self.bind_members(value, bindings, members, span, deeper, (count - 1) as nat);
            let i = (count - 1) as nat;
            let (b, member) = b.emit(
                InstKindView::GetElement { tuple: value, index: index_id_view(i) },
                ty_or_never_view(members, i),
                span,
            );
            let b = b.bind_value(bindings[i as int], member, span, deeper);
            b
        }
    }
}

impl<'a> Body<'a> {
    /// The cases are tried in the order they are written, and the first whose
    /// pattern matches and whose guard holds runs.
    pub fn match_stmt(
        &mut self,
        scrutinee: &'a Expr,
        arms: &'a Vec<MatchArm>,
        span: Span,
        fuel: u32,
    )
        ensures
            final(self)@ == old(self)@.match_stmt(*scrutinee, arms@, span, deeper(fuel as nat)),
        decreases fuel, 7nat, 0nat,
    {
        proof {
            reveal(BodyView::match_stmt);
        }
        let subject = self.expr(scrutinee, None, fuel);
        let join = self.add_block(span);
        let entering = self.saved_defs();
        let arrivals = self.match_arms(subject, arms, &entering, span, fuel);
        // The checker proved the cases cover every value, so control cannot reach
        // past the last one.
        self.terminate(Terminator::Trap(Trap::Unreachable));
        self.join(arrivals, join, span);
    }

    /// Each case in turn, and the paths that reach the end of one.
    pub fn match_arms(
        &mut self,
        subject: Value,
        arms: &'a Vec<MatchArm>,
        entering: &Held<Value>,
        span: Span,
        fuel: u32,
    ) -> (arrivals: Vec<Arrival>)
        ensures
            (final(self)@, views(arrivals@)) == old(self)@.match_arms(
                subject,
                arms@,
                entering@,
                span,
                deeper(fuel as nat),
                arms@.len(),
            ),
        decreases fuel, 6nat, arms@.len(),
    {
        let ghost start = self@;
        let mut arrivals: Vec<Arrival> = Vec::new();
        let mut i: usize = 0;
        proof {
            reveal(BodyView::match_arms);
        }
        assert(views(arrivals@) =~= Seq::empty());
        while i < arms.len()
            invariant
                i <= arms.len(),
                (self@, views(arrivals@)) == start.match_arms(
                    subject,
                    arms@,
                    entering@,
                    span,
                    deeper(fuel as nat),
                    i as nat,
                ),
            decreases arms.len() - i,
        {
            proof {
                reveal(BodyView::match_arms);
            }
            let next = self.add_block(span);
            self.open();
            self.arm(subject, &arms[i], next, span, fuel);
            match &arms[i].body {
                ArmBody::Block(body) => {
                    self.block(body, fuel);
                },
                ArmBody::Expr(value) => {
                    let _ = self.expr(value, None, fuel);
                },
            }
            if !self.has_left() {
                push_arrival(&mut arrivals, self.arrival());
            }
            self.close(fuel);
            self.switch_to(next);
            self.restore(entering);
            i += 1;
        }
        arrivals
    }

    /// Tests one case, and where it does not hold leaves for `next`. A guard is
    /// tested after the pattern bound what it binds, because the guard reads those
    /// bindings.
    pub fn arm(&mut self, subject: Value, arm: &'a MatchArm, next: BlockId, span: Span, fuel: u32)
        ensures
            final(self)@ == old(self)@.arm(subject, *arm, next, span, deeper(fuel as nat)),
        decreases fuel, 5nat, 0nat,
    {
        proof {
            reveal(BodyView::arm);
        }
        self.test(subject, &arm.pattern, next, fuel);
        match &arm.guard {
            Some(asked) => {
                let body = self.add_block(span);
                let condition = self.expr(asked, Some(&Ty::Bool), fuel);
                self.branch(condition, body, next);
                self.switch_to(body);
            },
            None => {},
        }
    }

    /// Tests `subject` against `pattern`, leaving for `fail` where it does not
    /// match, and binding what it binds where it does.
    pub fn test_within(&mut self, subject: Value, pattern: &'a Pattern, fail: BlockId, fuel: u32)
        ensures
            final(self)@ == old(self)@.test_within(subject, *pattern, fail, deeper(fuel as nat)),
        decreases fuel, 6nat, 0nat,
    {
        proof {
            reveal(BodyView::test_within);
        }
        let span = pattern.span;
        match &pattern.kind {
            PatternKind::Wildcard => {},
            PatternKind::Binding(name) => {
                let var = self.declare(name.as_str());
                self.set_def(var, subject);
            },
            PatternKind::Or(alternatives) => {
                let decided = self.alternatives(subject, alternatives, span, fuel);
                match decided {
                    Some(held) => {
                        match held {
                            Some(test) => {
                                self.check(test, fail, span);
                            },
                            None => {},
                        }
                    },
                    None => {},
                }
            },
            PatternKind::Path { segments, payload } => {
                self.test_path(subject, segments, payload, fail, span, fuel);
            },
            PatternKind::Tuple(members) => {
                let held = self.type_at(subject);
                let types = match tuple_members(&held) {
                    Some(types) => types,
                    None => {
                        self.gap(span, "a tuple pattern over something that is not a tuple");
                        return;
                    },
                };
                if types.len() != members.len() {
                    self.gap(span, "a tuple pattern of another length");
                    return;
                }
                self.test_members(subject, members, &types, fail, span, fuel);
            },
            PatternKind::Literal(_) => {
                let decided = self.decides(subject, pattern, fuel);
                match decided {
                    Some(test) => {
                        self.check(test, fail, span);
                    },
                    None => {
                        self.gap(span, "a literal pattern the compiler could not compare");
                    },
                }
            },
            PatternKind::Error => {},
        }
    }

    /// Tests the variant a path names. A path naming a struct rather than a variant
    /// tests nothing, and reads the fields it lists.
    pub fn test_path(
        &mut self,
        subject: Value,
        segments: &'a Vec<String>,
        payload: &'a Option<Payload>,
        fail: BlockId,
        span: Span,
        fuel: u32,
    )
        ensures
            final(self)@ == old(self)@.test_path(
                subject,
                segments@,
                *payload,
                fail,
                span,
                deeper(fuel as nat),
            ),
        decreases fuel, 5nat, 0nat,
    {
        proof {
            reveal(BodyView::test_path);
        }
        let name = match last_name(segments) {
            Some(name) => name,
            None => {
                self.gap(span, "a path pattern naming nothing");
                return;
            },
        };
        let held = self.type_at(subject);
        match self.variant_of(&held, name.as_str()) {
            Some(tag) => {
                let test = self.tag_test(subject, tag, span);
                self.check(test, fail, span);
                self.bind_payload(subject, tag, payload, fail, span, fuel);
            },
            None => {
                match payload {
                    Some(Payload::Record(fields)) => {
                        self.bind_fields(subject, fields, fail, span, fuel);
                    },
                    _ => {
                        self.gap(span, "a path pattern the compiler could not resolve");
                    },
                }
            },
        }
    }

    /// The test several alternatives come down to together: nothing where one of
    /// them binds.
    pub fn alternatives(
        &mut self,
        subject: Value,
        list: &'a Vec<Pattern>,
        span: Span,
        fuel: u32,
    ) -> (held: Option<Option<Value>>)
        ensures
            (final(self)@, held) == old(self)@.alternatives(
                subject,
                list@,
                span,
                deeper(fuel as nat),
                list@.len(),
            ),
        decreases fuel, 2nat, list@.len(),
    {
        let ghost start = self@;
        let mut held: Option<Option<Value>> = Some(None);
        let mut i: usize = 0;
        proof {
            reveal(BodyView::alternatives);
        }
        while i < list.len()
            invariant
                i <= list.len(),
                (self@, held) == start.alternatives(
                    subject,
                    list@,
                    span,
                    deeper(fuel as nat),
                    i as nat,
                ),
            decreases list.len() - i,
        {
            proof {
                reveal(BodyView::alternatives);
            }
            match held {
                Some(earlier) => {
                    let decided = self.decides(subject, &list[i], fuel);
                    match decided {
                        Some(test) => {
                            match earlier {
                                Some(before) => {
                                    let both = self.emit(
                                        InstKind::Binary {
                                            op: BinaryOp::BitOr,
                                            left: before,
                                            right: test,
                                        },
                                        Ty::Bool,
                                        span,
                                    );
                                    held = Some(Some(both));
                                },
                                None => {
                                    held = Some(Some(test));
                                },
                            }
                        },
                        None => {
                            self.gap(span, "an alternative that binds inside an or-pattern");
                            held = None;
                        },
                    }
                },
                None => {},
            }
            i += 1;
        }
        held
    }

    /// Each member of a tuple tested.
    pub fn test_members(
        &mut self,
        subject: Value,
        members: &'a Vec<Pattern>,
        types: &Vec<Ty>,
        fail: BlockId,
        span: Span,
        fuel: u32,
    )
        ensures
            final(self)@ == old(self)@.test_members(
                subject,
                members@,
                tys(types@),
                fail,
                span,
                deeper(fuel as nat),
                members@.len(),
            ),
        decreases fuel, 1nat, members@.len(),
    {
        let ghost start = self@;
        let mut i: usize = 0;
        proof {
            reveal(BodyView::test_members);
        }
        while i < members.len()
            invariant
                i <= members.len(),
                self@ == start.test_members(
                    subject,
                    members@,
                    tys(types@),
                    fail,
                    span,
                    deeper(fuel as nat),
                    i as nat,
                ),
            decreases members.len() - i,
        {
            proof {
                reveal(BodyView::test_members);
            }
            let element = self.emit(
                InstKind::GetElement { tuple: subject, index: index_id(i) },
                ty_or_never(types, i),
                span,
            );
            self.test(element, &members[i], fail, fuel);
            i += 1;
        }
    }

    /// The test a pattern comes down to, where it is one test and binds nothing.
    pub fn decides(
        &mut self,
        subject: Value,
        pattern: &'a Pattern,
        fuel: u32,
    ) -> (produced: Option<Value>)
        ensures
            (final(self)@, produced) == old(self)@.decides(subject, *pattern, deeper(fuel as nat)),
        decreases fuel, 1nat, 0nat,
    {
        proof {
            reveal(BodyView::decides);
        }
        let span = pattern.span;
        match &pattern.kind {
            PatternKind::Literal(literal) => {
                let held = self.type_at(subject);
                // `nil` matches an optional holding nothing, which is the check that
                // settles it.
                if is_nil(literal) && optional_inner(&held).is_some() {
                    let some = self.emit(InstKind::IsSome { value: subject }, Ty::Bool, span);
                    let absent = self.emit(
                        InstKind::Unary { op: UnaryOp::Not, operand: some },
                        Ty::Bool,
                        span,
                    );
                    return Some(absent);
                }
                let value = self.expr(literal, Some(&held), fuel);
                let equal = self.emit(
                    InstKind::Binary { op: BinaryOp::Equal, left: subject, right: value },
                    Ty::Bool,
                    span,
                );
                Some(equal)
            },
            PatternKind::Path { segments, payload } => {
                if payload.is_some() {
                    return None;
                }
                let name = match last_name(segments) {
                    Some(name) => name,
                    None => {
                        return None;
                    },
                };
                let held = self.type_at(subject);
                let tag = match self.variant_of(&held, name.as_str()) {
                    Some(tag) => tag,
                    None => {
                        return None;
                    },
                };
                let test = self.tag_test(subject, tag, span);
                Some(test)
            },
            _ => {
                None
            },
        }
    }

    /// Matches what a variant carries, once its tag has proved the variant.
    pub fn bind_payload(
        &mut self,
        subject: Value,
        variant: u32,
        payload: &'a Option<Payload>,
        fail: BlockId,
        span: Span,
        fuel: u32,
    )
        ensures
            final(self)@ == old(self)@.bind_payload(
                subject,
                variant,
                *payload,
                fail,
                span,
                deeper(fuel as nat),
            ),
        decreases fuel, 4nat, 0nat,
    {
        proof {
            reveal(BodyView::bind_payload);
        }
        match payload {
            Some(written) => {
                let held = self.type_at(subject);
                let carried = match self.payload_of(&held, variant) {
                    Some(carried) => carried,
                    None => {
                        self.gap(span, "a variant whose payload has no type");
                        return;
                    },
                };
                match written {
                    Payload::Tuple(patterns) => {
                        if patterns.len() != carried.len() {
                            self.gap(span, "a payload pattern of another length");
                            return;
                        }
                        self.test_payload(subject, variant, patterns, &carried, fail, span, fuel);
                    },
                    Payload::Record(fields) => {
                        let declared = match self.payload_names(&held, variant) {
                            Some(declared) => declared,
                            None => {
                                self.gap(span, "a payload whose fields have no names");
                                return;
                            },
                        };
                        self.test_named_payload(
                            subject,
                            variant,
                            fields,
                            &declared,
                            &carried,
                            fail,
                            fuel,
                        );
                    },
                }
            },
            None => {},
        }
    }

    /// Each part of a payload tested, by position.
    pub fn test_payload(
        &mut self,
        subject: Value,
        variant: u32,
        patterns: &'a Vec<Pattern>,
        carried: &Vec<Ty>,
        fail: BlockId,
        span: Span,
        fuel: u32,
    )
        ensures
            final(self)@ == old(self)@.test_payload(
                subject,
                variant,
                patterns@,
                tys(carried@),
                fail,
                span,
                deeper(fuel as nat),
                patterns@.len(),
            ),
        decreases fuel, 1nat, patterns@.len(),
    {
        let ghost start = self@;
        let mut i: usize = 0;
        proof {
            reveal(BodyView::test_payload);
        }
        while i < patterns.len()
            invariant
                i <= patterns.len(),
                self@ == start.test_payload(
                    subject,
                    variant,
                    patterns@,
                    tys(carried@),
                    fail,
                    span,
                    deeper(fuel as nat),
                    i as nat,
                ),
            decreases patterns.len() - i,
        {
            proof {
                reveal(BodyView::test_payload);
            }
            let value = self.emit(
                InstKind::GetPayload { value: subject, variant, field: index_id(i) },
                ty_or_never(carried, i),
                span,
            );
            self.test(value, &patterns[i], fail, fuel);
            i += 1;
        }
    }

    /// Each part of a payload tested, by name.
    pub fn test_named_payload(
        &mut self,
        subject: Value,
        variant: u32,
        fields: &'a Vec<FieldPattern>,
        declared: &Vec<String>,
        carried: &Vec<Ty>,
        fail: BlockId,
        fuel: u32,
    )
        ensures
            final(self)@ == old(self)@.test_named_payload(
                subject,
                variant,
                fields@,
                names(declared@),
                tys(carried@),
                fail,
                deeper(fuel as nat),
                fields@.len(),
            ),
        decreases fuel, 3nat, fields@.len(),
    {
        let ghost start = self@;
        let mut i: usize = 0;
        proof {
            reveal(BodyView::test_named_payload);
        }
        while i < fields.len()
            invariant
                i <= fields.len(),
                self@ == start.test_named_payload(
                    subject,
                    variant,
                    fields@,
                    names(declared@),
                    tys(carried@),
                    fail,
                    deeper(fuel as nat),
                    i as nat,
                ),
            decreases fields.len() - i,
        {
            proof {
                reveal(BodyView::test_named_payload);
            }
            match name_at(declared, fields[i].field.as_str()) {
                Some(field) => {
                    let value = self.emit(
                        InstKind::GetPayload { value: subject, variant, field },
                        ty_of(carried, field),
                        fields[i].span,
                    );
                    self.bind_field(value, &fields[i], fail, fuel);
                },
                None => {
                    self.gap(fields[i].span, "a payload field the compiler could not find");
                },
            }
            i += 1;
        }
    }

    /// Matches the fields a struct or record pattern lists.
    pub fn bind_fields(
        &mut self,
        subject: Value,
        fields: &'a Vec<FieldPattern>,
        fail: BlockId,
        span: Span,
        fuel: u32,
    )
        ensures
            final(self)@ == old(self)@.bind_fields(
                subject,
                fields@,
                fail,
                span,
                deeper(fuel as nat),
            ),
        decreases fuel, 4nat, 0nat,
    {
        proof {
            reveal(BodyView::bind_fields);
        }
        let held = self.type_at(subject);
        let declared = match self.fields_of(&held) {
            Some(declared) => declared,
            None => {
                self.gap(span, "a record pattern over a type with no fields");
                return;
            },
        };
        self.test_fields(subject, fields, &declared, fail, fuel);
    }

    /// Each listed field tested.
    pub fn test_fields(
        &mut self,
        subject: Value,
        fields: &'a Vec<FieldPattern>,
        declared: &Vec<(String, Ty)>,
        fail: BlockId,
        fuel: u32,
    )
        ensures
            final(self)@ == old(self)@.test_fields(
                subject,
                fields@,
                named_tys(declared@),
                fail,
                deeper(fuel as nat),
                fields@.len(),
            ),
        decreases fuel, 3nat, fields@.len(),
    {
        let ghost start = self@;
        let mut i: usize = 0;
        proof {
            reveal(BodyView::test_fields);
        }
        while i < fields.len()
            invariant
                i <= fields.len(),
                self@ == start.test_fields(
                    subject,
                    fields@,
                    named_tys(declared@),
                    fail,
                    deeper(fuel as nat),
                    i as nat,
                ),
            decreases fields.len() - i,
        {
            proof {
                reveal(BodyView::test_fields);
            }
            match field_at(declared, fields[i].field.as_str()) {
                Some(field) => {
                    let value = self.emit(
                        InstKind::GetField { object: subject, field },
                        field_ty(declared, field),
                        fields[i].span,
                    );
                    self.bind_field(value, &fields[i], fail, fuel);
                },
                None => {
                    self.gap(fields[i].span, "a field the compiler could not find");
                },
            }
            i += 1;
        }
    }

    /// One field of a record pattern: matched against a pattern where it has one,
    /// and bound under the name it is written with otherwise.
    pub fn bind_field(&mut self, value: Value, written: &'a FieldPattern, fail: BlockId, fuel: u32)
        ensures
            final(self)@ == old(self)@.bind_field(value, *written, fail, deeper(fuel as nat)),
        decreases fuel, 2nat, 0nat,
    {
        proof {
            reveal(BodyView::bind_field);
        }
        match &written.pattern {
            Some(pattern) => {
                self.test(value, pattern, fail, fuel);
            },
            None => {
                let var = self.declare(name_bound(&written.field, &written.bound_as));
                self.set_def(var, value);
            },
        }
    }

    /// Points a binding at a value.
    pub fn bind_within(&mut self, binding: &'a Binding, value: Value, span: Span, fuel: u32)
        ensures
            final(self)@ == old(self)@.bind_within(*binding, value, span, deeper(fuel as nat)),
        decreases fuel, 3nat, 0nat,
    {
        proof {
            reveal(BodyView::bind_within);
        }
        match binding {
            Binding::Name(name) => {
                self.bind_name(name.as_str(), value, span);
            },
            Binding::Record(fields) => {
                let held = self.type_at(value);
                match self.fields_of(&held) {
                    Some(declared) => {
                        self.bind_record(value, fields, &declared);
                    },
                    None => {
                        self.gap(span, "a record binding over a type with no fields");
                        self.declare_binding(binding);
                    },
                }
            },
            Binding::Tuple(bindings) => {
                let held = self.type_at(value);
                match tuple_members(&held) {
                    Some(members) => {
                        if bindings.len() != members.len() {
                            self.gap(span, "a tuple binding of another length");
                            self.declare_binding(binding);
                            return;
                        }
                        self.bind_members(value, bindings, &members, span, fuel);
                    },
                    None => {
                        self.gap(span, "a tuple binding over a value that is not a tuple");
                        self.declare_binding(binding);
                    },
                }
            },
            Binding::Error => {},
        }
    }

    /// Each field a record binding lists bound.
    pub fn bind_record(
        &mut self,
        value: Value,
        fields: &'a Vec<FieldBinding>,
        declared: &Vec<(String, Ty)>,
    )
        ensures
            final(self)@ == old(self)@.bind_record(
                value,
                fields@,
                named_tys(declared@),
                fields@.len(),
            ),
    {
        let ghost start = self@;
        let mut i: usize = 0;
        proof {
            reveal(BodyView::bind_record);
        }
        while i < fields.len()
            invariant
                i <= fields.len(),
                self@ == start.bind_record(value, fields@, named_tys(declared@), i as nat),
            decreases fields.len() - i,
        {
            proof {
                reveal(BodyView::bind_record);
            }
            match field_at(declared, fields[i].field.as_str()) {
                Some(field) => {
                    let read = self.emit(
                        InstKind::GetField { object: value, field },
                        field_ty(declared, field),
                        fields[i].span,
                    );
                    let var = self.declare(name_bound(&fields[i].field, &fields[i].bound_as));
                    self.set_def(var, read);
                },
                None => {
                    self.gap(fields[i].span, "a record binding field the compiler could not find");
                },
            }
            i += 1;
        }
    }

    /// Each member of a tuple bound.
    pub fn bind_members(
        &mut self,
        value: Value,
        bindings: &'a Vec<Binding>,
        members: &Vec<Ty>,
        span: Span,
        fuel: u32,
    )
        ensures
            final(self)@ == old(self)@.bind_members(
                value,
                bindings@,
                tys(members@),
                span,
                deeper(fuel as nat),
                bindings@.len(),
            ),
        decreases fuel, 1nat, bindings@.len(),
    {
        let ghost start = self@;
        let mut i: usize = 0;
        proof {
            reveal(BodyView::bind_members);
        }
        while i < bindings.len()
            invariant
                i <= bindings.len(),
                self@ == start.bind_members(
                    value,
                    bindings@,
                    tys(members@),
                    span,
                    deeper(fuel as nat),
                    i as nat,
                ),
            decreases bindings.len() - i,
        {
            proof {
                reveal(BodyView::bind_members);
            }
            let member = self.emit(
                InstKind::GetElement { tuple: value, index: index_id(i) },
                ty_or_never(members, i),
                span,
            );
            self.bind_value(&bindings[i], member, span, fuel);
            i += 1;
        }
    }
}

} // verus!
