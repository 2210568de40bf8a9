//! Lowering `for` loops.

use vstd::prelude::*;

use crate::ast::{Binding, Block, Expr, ExprKind};
use crate::inst::{
    BinaryOp, Const, ConstView, InstKind, InstKindView, Target, TargetView, Terminator,
    TerminatorView, Value, clone_values, one, two,
};
use crate::program::{BlockId, BlockView, id_limit};
use crate::span::Span;
use crate::ty::{Builtin, Ty, TyView, tys};

use super::kinds::{
    builtin_kind, builtin_kind_view, is_list_kind, is_list_kind_view, is_map_kind, is_map_kind_view,
    is_set_kind, is_set_kind_view, seq1, seq2, target_view,
};
use super::asked::{boxed, boxed_view, is_method, is_method_view, pointed};
use super::deeper::{Deeper, deeper};
use super::given::{or_else, or_else_view, ty_or_never, ty_or_never_view};
use super::{Body, BodyView, Loop, LoopView, clone_vars, label_view};

verus! {

/// What a `for` counts through.
#[derive(Clone, Copy)]
pub enum Source {
    Range { last: Value, inclusive: bool },
    Reversed { first: Value, inclusive: bool },
    List { receiver: Value, indexed: bool },
    Table(Value),
}

/// What a `for` counts through, and what it counts with.
pub struct Counted {
    pub source: Source,
    pub counter: u32,
    pub first: Value,
    pub element: Ty,
}

/// A [`Counted`] with its type as a mathematical value.
pub struct CountedView {
    pub source: Source,
    pub counter: u32,
    pub first: Value,
    pub element: TyView,
}

impl View for Counted {
    type V = CountedView;

    open spec fn view(&self) -> CountedView {
        CountedView {
            source: self.source,
            counter: self.counter,
            first: self.first,
            element: self.element@,
        }
    }
}

/// What a `for` counts through, where it counts through anything.
pub open spec fn maybe_counted(found: Option<Counted>) -> Option<CountedView> {
    match found {
        Some(held) => Some(held@),
        None => None,
    }
}

/// The one name some bindings bind.
pub open spec fn one_name_view(bindings: Seq<Binding>) -> Option<String> {
    if bindings.len() == 1 {
        match bindings[0] {
            Binding::Name(name) => Some(name),
            _ => None,
        }
    } else {
        None
    }
}

/// The one name some bindings bind.
pub fn one_name(bindings: &Vec<Binding>) -> (found: Option<&String>)
    ensures
        match found {
            Some(name) => one_name_view(bindings@) == Some(*name),
            None => one_name_view(bindings@) is None,
        },
{
    if bindings.len() == 1 {
        match &bindings[0] {
            Binding::Name(name) => Some(name),
            _ => None,
        }
    } else {
        None
    }
}

/// What a collection is counted through by.
pub open spec fn collection_source_view(kind: Option<Builtin>, receiver: Value, indexed: bool) -> Option<
    Source,
> {
    if is_list_kind_view(kind) {
        Some(Source::List { receiver, indexed })
    } else if is_map_kind_view(kind) || is_set_kind_view(kind) {
        Some(Source::Table(receiver))
    } else {
        None
    }
}

/// What a collection is counted through by.
pub fn collection_source(kind: Option<Builtin>, receiver: Value, indexed: bool) -> (found: Option<
    Source,
>)
    ensures
        found == collection_source_view(kind, receiver, indexed),
{
    if is_list_kind(kind) {
        Some(Source::List { receiver, indexed })
    } else if is_map_kind(kind) || is_set_kind(kind) {
        Some(Source::Table(receiver))
    } else {
        None
    }
}

/// How a counter is held against its bound.
pub open spec fn bound_op_view(source: Source) -> BinaryOp {
    match source {
        Source::Range { last, inclusive } => if inclusive {
            BinaryOp::LessEqual
        } else {
            BinaryOp::Less
        },
        Source::Reversed { first, inclusive } => if inclusive {
            BinaryOp::GreaterEqual
        } else {
            BinaryOp::Greater
        },
        _ => BinaryOp::Less,
    }
}

/// How a counter is held against its bound.
pub fn bound_op(source: Source) -> (op: BinaryOp)
    ensures
        op == bound_op_view(source),
{
    match source {
        Source::Range { inclusive, .. } => if inclusive {
            BinaryOp::LessEqual
        } else {
            BinaryOp::Less
        },
        Source::Reversed { inclusive, .. } => if inclusive {
            BinaryOp::GreaterEqual
        } else {
            BinaryOp::Greater
        },
        _ => BinaryOp::Less,
    }
}

/// How a counter goes on.
pub open spec fn step_op_view(source: Source) -> BinaryOp {
    if source is Reversed {
        BinaryOp::Subtract
    } else {
        BinaryOp::Add
    }
}

/// How a counter goes on.
pub fn step_op(source: Source) -> (op: BinaryOp)
    ensures
        op == step_op_view(source),
{
    match source {
        Source::Reversed { .. } => BinaryOp::Subtract,
        _ => BinaryOp::Add,
    }
}

/// The value a counter takes last, where what it counts through says.
pub open spec fn last_of_view(source: Source) -> Option<Value> {
    match source {
        Source::Range { last, inclusive } => if inclusive {
            Some(last)
        } else {
            None
        },
        Source::Reversed { first, inclusive } => if inclusive {
            Some(first)
        } else {
            None
        },
        _ => None,
    }
}

/// The value a counter takes last, where what it counts through says.
pub fn last_of(source: Source) -> (last: Option<Value>)
    ensures
        last == last_of_view(source),
{
    match source {
        Source::Range { last, inclusive } => if inclusive {
            Some(last)
        } else {
            None
        },
        Source::Reversed { first, inclusive } => if inclusive {
            Some(first)
        } else {
            None
        },
        _ => None,
    }
}

/// What reads the key or the value of an entry.
pub open spec fn entry_read_view(key: bool, receiver: Value, index: Value) -> InstKindView {
    if key {
        InstKindView::EntryKey { receiver, index }
    } else {
        InstKindView::EntryValue { receiver, index }
    }
}

/// What reads the key or the value of an entry.
pub fn entry_read(key: bool, receiver: Value, index: Value) -> (kind: InstKind)
    ensures
        kind@ == entry_read_view(key, receiver, index),
{
    if key {
        InstKind::EntryKey { receiver, index }
    } else {
        InstKind::EntryValue { receiver, index }
    }
}

/// Some bindings and one more.
pub open spec fn with_var_view(vars: Seq<u32>, var: u32) -> Seq<u32> {
    vars.push(var)
}

/// Some bindings and one more.
pub fn with_var(vars: &Vec<u32>, var: u32) -> (more: Vec<u32>)
    ensures
        more@ == with_var_view(vars@, var),
{
    let mut more = clone_vars(vars);
    more.push(var);
    more
}

impl<'a> BodyView<'a> {
    /// What a `for` counts through: a range written in place from its lower bound up
    /// to its upper one, or down; a list through its indices; a map or a set through
    /// its buckets.
    #[verifier::opaque]
    pub open spec fn counted(
        self,
        bindings: Seq<Binding>,
        iterable: Expr,
        span: Span,
        deeper: Deeper<'a>,
    ) -> (BodyView<'a>, Option<CountedView>) {
        let b = self;
        match iterable.kind {
            ExprKind::Range { start, end, inclusive } => {
                match one_name_view(bindings) {
                    Some(name) => {
                        match boxed_view(start) {
                            Some(from) => {
                                match boxed_view(end) {
                                    Some(to) => {
                                        let (b, element) = b.counter_type(*from, span);
                                        let (b, first) = b.expr(*from, Some(element), deeper);
                                        let (b, last) = b.expr(*to, Some(element), deeper);
                                        let (b, counter) = b.declare(name@);
                                        (
                                            b,
                                            Some(
                                                CountedView {
                                                    source: Source::Range {
                                                        last,
                                                        inclusive: inclusive,
                                                    },
                                                    counter,
                                                    first,
                                                    element,
                                                },
                                            ),
                                        )
                                    },
                                    None => b.uncounted(span, "a range loop that does not bind one name"@),
                                }
                            },
                            None => b.uncounted(span, "a range loop that does not bind one name"@),
                        }
                    },
                    None => b.uncounted(span, "a range loop that does not bind one name"@),
                }
            },
            ExprKind::Call { callee, method, args } => {
                if is_method_view(method, "reversed"@) && args@.len() == 0 {
                    b.counted_down(*callee, span, deeper)
                } else {
                    if is_method_view(method, "enumerated"@) && args@.len() == 0 {
                        b.counted_through(*callee, true, span, deeper)
                    } else {
                        b.counted_through(iterable, false, span, deeper)
                    }
                }
            },
            _ => {
                b.counted_through(iterable, false, span, deeper)
            },
        }
    }

    /// Something no `for` counts through.
    #[verifier::opaque]
    pub open spec fn uncounted(
        self,
        span: Span,
        what: Seq<char>,
    ) -> (BodyView<'a>, Option<CountedView>) {
        let b = self;
        let b = b.gap(span, what);
        (b, None)
    }

    /// The type a counter has.
    #[verifier::opaque]
    pub open spec fn counter_type(self, start: Expr, span: Span) -> (BodyView<'a>, TyView) {
        let b = self;
        let (b, declared) = b.declared_type(span);
        (b, or_else_view(declared, or_else_view(b.known_type(start), TyView::integer())))
    }

    /// A range counted down.
    #[verifier::opaque]
    pub open spec fn counted_down(
        self,
        callee: Expr,
        span: Span,
        deeper: Deeper<'a>,
    ) -> (BodyView<'a>, Option<CountedView>) {
        let b = self;
        match callee.kind {
            ExprKind::Range { start, end, inclusive } => {
                match boxed_view(start) {
                    Some(from) => {
                        match boxed_view(end) {
                            Some(to) => {
                                let (b, element) = b.counter_type(*from, span);
                                let (b, first) = b.expr(*from, Some(element), deeper);
                                let (b, last) = b.expr(*to, Some(element), deeper);
                                let (b, counter) = b.declare(""@);
                                (
                                    b,
                                    Some(
                                        CountedView {
                                            source: Source::Reversed {
                                                first,
                                                inclusive: inclusive,
                                            },
                                            counter,
                                            first: last,
                                            element,
                                        },
                                    ),
                                )
                            },
                            None => b.uncounted(span, "`reversed()` on something other than a range written in place"@),
                        }
                    },
                    None => b.uncounted(span, "`reversed()` on something other than a range written in place"@),
                }
            },
            _ => {
                b.uncounted(span, "`reversed()` on something other than a range written in place"@)
            },
        }
    }

    /// A collection counted through.
    #[verifier::opaque]
    pub open spec fn counted_through(
        self,
        iterable: Expr,
        indexed: bool,
        span: Span,
        deeper: Deeper<'a>,
    ) -> (BodyView<'a>, Option<CountedView>) {
        let b = self;
        let (b, receiver) = b.expr(iterable, None, deeper);
        let held = b.type_at(receiver);
        match collection_source_view(builtin_kind_view(held), receiver, indexed) {
            Some(source) => {
                let (b, zero) = b.emit(
                    InstKindView::Const(ConstView::Int(0)),
                    TyView::integer(),
                    span,
                );
                let (b, counter) = b.declare(""@);
                (b, Some(CountedView { source, counter, first: zero, element: TyView::integer() }))
            },
            None => b.uncounted(span, "a `for` over something that is not a range or a collection"@),
        }
    }

    /// A `for` runs its body for each element of what it counts through, and runs
    /// zero times where there is none.
    #[verifier::opaque]
    pub open spec fn for_stmt(
        self,
        label: Option<Seq<char>>,
        bindings: Seq<Binding>,
        iterable: Expr,
        body: Block,
        span: Span,
        deeper: Deeper<'a>,
    ) -> BodyView<'a> {
        let b = self;
        let carried = b.carried(body);
        let (b, header) = b.add_block(span);
        let b = b.open();
        let (b, counted) = b.counted(bindings, iterable, span, deeper);
        match counted {
            Some(held) => {
                b.for_counted(label, bindings, held, carried, header, body, span, deeper)
            },
            None => {
                b
            },
        }
    }

    /// A `for` over what it counts through.
    #[verifier::opaque]
    pub open spec fn for_counted(
        self,
        label: Option<Seq<char>>,
        bindings: Seq<Binding>,
        counted: CountedView,
        carried: Seq<u32>,
        header: BlockId,
        body: Block,
        span: Span,
        deeper: Deeper<'a>,
    ) -> BodyView<'a> {
        let b = self;
        let b = b.set_def(counted.counter, counted.first);
        let passing = with_var_view(carried, counted.counter);
        let b = b.jump_to(header, passing);
        let b = b.switch_to(header);
        let b = b.add_params(header, passing, span, passing.len());
        let b = b.bind_params(header, passing);
        let entering = b.saved_defs();
        let current = b.def_of(counted.counter);
        let (b, condition) = b.goes_on(counted.source, current, span);
        let (b, inside) = b.add_block(span);
        let (b, step) = b.add_block(span);
        let (b, exit) = b.add_block(span);
        let leaving = b.defs_of(carried);
        let b = b.add_params(exit, carried, span, carried.len());
        let b = b.add_params(step, carried, span, carried.len());
        let b = b.terminate(
            TerminatorView::Branch {
                condition,
                then: TargetView::to(inside),
                otherwise: target_view(exit, leaving),
            },
        );
        let b = b.switch_to(inside);
        let b = b.restore(entering);
        let b = b.bind_counted(counted, current, bindings, step, leaving, span, deeper);
        let depth = b.depth();
        let b = b.push_loop(LoopView { label, again: Some(step), exit, carried: carried, depth });
        let b = b.block(body, deeper);
        let b = if !b.left {
            let b = b.jump_to(step, carried);
            b
        } else {
            b
        };
        let b = b.pop_loop();
        let b = b.switch_to(step);
        let b = b.restore(entering);
        let b = b.bind_params(step, carried);
        let b = b.stop_at_last(counted.source, current, exit, carried, span);
        let (b, next) = b.count_on(counted.source, current, counted.element, span);
        let b = b.set_def(counted.counter, next);
        let b = b.jump_to(header, passing);
        let b = b.close(deeper);
        let b = b.switch_to(exit);
        let b = b.restore(entering);
        let b = b.bind_params(exit, carried);
        b
    }

    /// A range that takes in its bound ends once a pass ran for it, before the counter
    /// would go on: what comes after the bound may be nothing its type holds.
    #[verifier::opaque]
    pub open spec fn stop_at_last(
        self,
        source: Source,
        current: Value,
        exit: BlockId,
        carried: Seq<u32>,
        span: Span,
    ) -> BodyView<'a> {
        let b = self;
        match last_of_view(source) {
            Some(bound) => {
                let (b, ended) = b.emit(
                    InstKindView::Binary { op: BinaryOp::Equal, left: current, right: bound },
                    TyView::Bool,
                    span,
                );
                let (b, more) = b.add_block(span);
                let leaving = b.defs_of(carried);
                let b = b.terminate(
                    TerminatorView::Branch {
                        condition: ended,
                        then: target_view(exit, leaving),
                        otherwise: TargetView::to(more),
                    },
                );
                let b = b.switch_to(more);
                b
            },
            None => {
                b
            },
        }
    }

    /// What the counter goes on with.
    #[verifier::opaque]
    pub open spec fn count_on(
        self,
        source: Source,
        current: Value,
        element: TyView,
        span: Span,
    ) -> (BodyView<'a>, Value) {
        let b = self;
        let (b, one_more) = b.emit(InstKindView::Const(ConstView::Int(1)), element, span);
        b.emit(
            InstKindView::Binary { op: step_op_view(source), left: current, right: one_more },
            element,
            span,
        )
    }

    /// Whether another pass runs.
    #[verifier::opaque]
    pub open spec fn goes_on(
        self,
        source: Source,
        current: Value,
        span: Span,
    ) -> (BodyView<'a>, Value) {
        let b = self;
        let (b, bound) = match source {
            Source::Range { last, inclusive } => {
                (b, last)
            },
            Source::Reversed { first, inclusive } => {
                (b, first)
            },
            Source::List { receiver, indexed } => {
                b.emit(InstKindView::Length { receiver }, TyView::integer(), span)
            },
            Source::Table(receiver) => {
                b.emit(InstKindView::Buckets { receiver }, TyView::integer(), span)
            },
        };
        b.emit(
            InstKindView::Binary { op: bound_op_view(source), left: current, right: bound },
            TyView::Bool,
            span,
        )
    }

    /// Binds what one pass runs for. A pass over a bucket that is not occupied goes
    /// straight to the next.
    #[verifier::opaque]
    pub open spec fn bind_counted(
        self,
        counted: CountedView,
        current: Value,
        bindings: Seq<Binding>,
        step: BlockId,
        leaving: Seq<Value>,
        span: Span,
        deeper: Deeper<'a>,
    ) -> BodyView<'a> {
        let b = self;
        match counted.source {
            Source::Range { last, inclusive } => {
                b
            },
            Source::Reversed { first, inclusive } => {
                let (b, value) = if inclusive {
                    (b, current)
                } else {
                    let (b, one_less) = b.emit(
                        InstKindView::Const(ConstView::Int(1)),
                        counted.element,
                        span,
                    );
                    b.emit(
                        InstKindView::Binary {
                            op: BinaryOp::Subtract,
                            left: current,
                            right: one_less,
                        },
                        counted.element,
                        span,
                    )
                };
                let b = b.bind_each(bindings, seq1(value), span, deeper, bindings.len());
                b
            },
            Source::List { receiver, indexed } => {
                let held = b.collection_args(receiver);
                let (b, element) = b.emit(
                    InstKindView::GetIndex { receiver, index: current },
                    ty_or_never_view(held, 0),
                    span,
                );
                let b = if indexed {
                    let b = b.bind_each(
                        bindings,
                        seq2(current, element),
                        span,
                        deeper,
                        bindings.len(),
                    );
                    b
                } else {
                    let b = b.bind_each(bindings, seq1(element), span, deeper, bindings.len());
                    b
                };
                b
            },
            Source::Table(receiver) => {
                let (b, occupied) = b.emit(
                    InstKindView::Occupied { receiver, index: current },
                    TyView::Bool,
                    span,
                );
                let (b, found) = b.add_block(span);
                let b = b.terminate(
                    TerminatorView::Branch {
                        condition: occupied,
                        then: TargetView::to(found),
                        otherwise: target_view(step, leaving),
                    },
                );
                let b = b.switch_to(found);
                let held = b.collection_args(receiver);
                let b = b.bind_entries(
                    bindings,
                    receiver,
                    current,
                    held,
                    span,
                    deeper,
                    bindings.len(),
                );
                b
            },
        }
    }

    /// Each binding pointed at the value in its position.
    #[verifier::opaque]
    pub open spec fn bind_each(
        self,
        bindings: Seq<Binding>,
        values: Seq<Value>,
        span: Span,
        deeper: Deeper<'a>,
        count: nat,
    ) -> BodyView<'a>
        decreases count,
    {
        if count == 0 {
            self
        } else {
            let b = self.bind_each(bindings, values, span, deeper, (count - 1) as nat);
            let i = (count - 1) as nat;
            let b = if i < values.len() {
                let b = b.bind_value(bindings[i as int], values[i as int], span, deeper);
                b
            } else {
                b
            };
            b
        }
    }

    /// Each binding pointed at the key or the value of an entry.
    #[verifier::opaque]
    pub open spec fn bind_entries(
        self,
        bindings: Seq<Binding>,
        receiver: Value,
        current: Value,
        held: Seq<TyView>,
        span: Span,
        deeper: Deeper<'a>,
        count: nat,
    ) -> BodyView<'a>
        decreases count,
    {
        if count == 0 {
            self
        } else {
            let b = self.bind_entries(bindings, receiver, current, held, span, deeper, (count - 1) as nat);
            let i = (count - 1) as nat;
            let b = if i < held.len() && i < 2 {
                let (b, value) = b.emit(
                    entry_read_view(i == 0, receiver, current),
                    ty_or_never_view(held, i),
                    span,
                );
                let b = b.bind_value(bindings[i as int], value, span, deeper);
                b
            } else {
                b
            };
            b
        }
    }
}

impl<'a> Body<'a> {
    /// What a `for` counts through: a range written in place from its lower bound up
    /// to its upper one, or down; a list through its indices; a map or a set through
    /// its buckets.
    pub fn counted(
        &mut self,
        bindings: &'a Vec<Binding>,
        iterable: &'a Expr,
        span: Span,
        fuel: u32,
    ) -> (produced: Option<Counted>)
        ensures
            (final(self)@, maybe_counted(produced)) == old(self)@.counted(
                bindings@,
                *iterable,
                span,
                deeper(fuel as nat),
            ),
        decreases fuel, 3nat, 0nat,
    {
        proof {
            reveal(BodyView::counted);
        }
        match &iterable.kind {
            ExprKind::Range { start, end, inclusive } => {
                let name = match one_name(bindings) {
                    Some(name) => name,
                    None => {
                        return self.uncounted(span, "a range loop that does not bind one name");
                    },
                };
                let from = match boxed(start) {
                    Some(from) => from,
                    None => {
                        return self.uncounted(span, "a range loop that does not bind one name");
                    },
                };
                let to = match boxed(end) {
                    Some(to) => to,
                    None => {
                        return self.uncounted(span, "a range loop that does not bind one name");
                    },
                };
                let element = self.counter_type(from, span);
                let first = self.expr(from, Some(&element), fuel);
                let last = self.expr(to, Some(&element), fuel);
                let counter = self.declare(name.as_str());
                Some(
                    Counted {
                        source: Source::Range { last, inclusive: *inclusive },
                        counter,
                        first,
                        element,
                    },
                )
            },
            ExprKind::Call { callee, method, args } => {
                if is_method(method, "reversed") && args.len() == 0 {
                    return self.counted_down(callee, span, fuel);
                }
                if is_method(method, "enumerated") && args.len() == 0 {
                    return self.counted_through(callee, true, span, fuel);
                }
                self.counted_through(iterable, false, span, fuel)
            },
            _ => {
                self.counted_through(iterable, false, span, fuel)
            },
        }
    }

    /// Something no `for` counts through.
    pub fn uncounted(&mut self, span: Span, what: &str) -> (produced: Option<Counted>)
        ensures
            (final(self)@, maybe_counted(produced)) == old(self)@.uncounted(span, what@),
    {
        proof {
            reveal(BodyView::uncounted);
        }
        self.gap(span, what);
        None
    }

    /// The type a counter has.
    pub fn counter_type(&mut self, start: &'a Expr, span: Span) -> (produced: Ty)
        ensures
            (final(self)@, produced@) == old(self)@.counter_type(*start, span),
    {
        proof {
            reveal(BodyView::counter_type);
        }
        let declared = self.declared_type(span);
        or_else(declared, or_else(self.known_type(start), Ty::integer()))
    }

    /// A range counted down.
    pub fn counted_down(
        &mut self,
        callee: &'a Expr,
        span: Span,
        fuel: u32,
    ) -> (produced: Option<Counted>)
        ensures
            (
                final(self)@,
                maybe_counted(produced),
            ) == old(self)@.counted_down(*callee, span, deeper(fuel as nat)),
        decreases fuel, 2nat, 0nat,
    {
        proof {
            reveal(BodyView::counted_down);
        }
        match &callee.kind {
            ExprKind::Range { start, end, inclusive } => {
                let from = match boxed(start) {
                    Some(from) => from,
                    None => {
                        return self.uncounted(
                            span,
                            "`reversed()` on something other than a range written in place",
                        );
                    },
                };
                let to = match boxed(end) {
                    Some(to) => to,
                    None => {
                        return self.uncounted(
                            span,
                            "`reversed()` on something other than a range written in place",
                        );
                    },
                };
                let element = self.counter_type(from, span);
                let first = self.expr(from, Some(&element), fuel);
                let last = self.expr(to, Some(&element), fuel);
                let counter = self.declare("");
                Some(
                    Counted {
                        source: Source::Reversed { first, inclusive: *inclusive },
                        counter,
                        first: last,
                        element,
                    },
                )
            },
            _ => {
                self.uncounted(
                    span,
                    "`reversed()` on something other than a range written in place",
                )
            },
        }
    }

    /// A collection counted through.
    pub fn counted_through(
        &mut self,
        iterable: &'a Expr,
        indexed: bool,
        span: Span,
        fuel: u32,
    ) -> (produced: Option<Counted>)
        ensures
            (final(self)@, maybe_counted(produced)) == old(self)@.counted_through(
                *iterable,
                indexed,
                span,
                deeper(fuel as nat),
            ),
        decreases fuel, 2nat, 0nat,
    {
        proof {
            reveal(BodyView::counted_through);
        }
        let receiver = self.expr(iterable, None, fuel);
        let held = self.type_at(receiver);
        let source = match collection_source(builtin_kind(&held), receiver, indexed) {
            Some(source) => source,
            None => {
                return self.uncounted(
                    span,
                    "a `for` over something that is not a range or a collection",
                );
            },
        };
        let zero = self.emit(InstKind::Const(Const::Int(0)), Ty::integer(), span);
        let counter = self.declare("");
        Some(Counted { source, counter, first: zero, element: Ty::integer() })
    }

    /// A `for` runs its body for each element of what it counts through, and runs
    /// zero times where there is none.
    pub fn for_stmt(
        &mut self,
        label: Option<&'a String>,
        bindings: &'a Vec<Binding>,
        iterable: &'a Expr,
        body: &'a Block,
        span: Span,
        fuel: u32,
    )
        ensures
            final(self)@ == old(self)@.for_stmt(
                label_view(label),
                bindings@,
                *iterable,
                *body,
                span,
                deeper(fuel as nat),
            ),
        decreases fuel, 6nat, 0nat,
    {
        proof {
            reveal(BodyView::for_stmt);
        }
        let carried = self.carried(body);
        let header = self.add_block(span);
        self.open();
        let counted = self.counted(bindings, iterable, span, fuel);
        match counted {
            Some(held) => {
                self.for_counted(label, bindings, &held, &carried, header, body, span, fuel);
            },
            None => {},
        }
    }

    /// A `for` over what it counts through.
    pub fn for_counted(
        &mut self,
        label: Option<&'a String>,
        bindings: &'a Vec<Binding>,
        counted: &Counted,
        carried: &Vec<u32>,
        header: BlockId,
        body: &'a Block,
        span: Span,
        fuel: u32,
    )
        ensures
            final(self)@ == old(self)@.for_counted(
                label_view(label),
                bindings@,
                counted@,
                carried@,
                header,
                *body,
                span,
                deeper(fuel as nat),
            ),
        decreases fuel, 5nat, 0nat,
    {
        proof {
            reveal(BodyView::for_counted);
        }
        self.set_def(counted.counter, counted.first);
        let passing = with_var(carried, counted.counter);
        self.jump_to(header, &passing);
        self.switch_to(header);
        self.add_params(header, &passing, span);
        self.bind_params(header, &passing);
        let entering = self.saved_defs();
        let current = self.def_of(counted.counter);
        let condition = self.goes_on(counted.source, current, span);
        let inside = self.add_block(span);
        let step = self.add_block(span);
        let exit = self.add_block(span);
        let leaving = self.defs_of(carried);
        self.add_params(exit, carried, span);
        self.add_params(step, carried, span);
        self.terminate(
            Terminator::Branch {
                condition,
                then: Target::to(inside),
                otherwise: Target::new(exit, clone_values(&leaving)),
            },
        );
        self.switch_to(inside);
        self.restore(&entering);
        self.bind_counted(counted, current, bindings, step, &leaving, span, fuel);
        let depth = self.depth();
        self.push_loop(
            Loop { label, again: Some(step), exit, carried: clone_vars(carried), depth },
        );
        self.block(body, fuel);
        if !self.has_left() {
            self.jump_to(step, carried);
        }
        self.pop_loop();
        self.switch_to(step);
        self.restore(&entering);
        self.bind_params(step, carried);
        self.stop_at_last(counted.source, current, exit, carried, span);
        let next = self.count_on(counted.source, current, &counted.element, span);
        self.set_def(counted.counter, next);
        self.jump_to(header, &passing);
        self.close(fuel);
        self.switch_to(exit);
        self.restore(&entering);
        self.bind_params(exit, carried);
    }

    /// A range that takes in its bound ends once a pass ran for it, before the counter
    /// would go on: what comes after the bound may be nothing its type holds.
    pub fn stop_at_last(
        &mut self,
        source: Source,
        current: Value,
        exit: BlockId,
        carried: &Vec<u32>,
        span: Span,
    )
        ensures
            final(self)@ == old(self)@.stop_at_last(source, current, exit, carried@, span),
    {
        proof {
            reveal(BodyView::stop_at_last);
        }
        match last_of(source) {
            Some(bound) => {
                let ended = self.emit(
                    InstKind::Binary { op: BinaryOp::Equal, left: current, right: bound },
                    Ty::Bool,
                    span,
                );
                let more = self.add_block(span);
                let leaving = self.defs_of(carried);
                self.terminate(
                    Terminator::Branch {
                        condition: ended,
                        then: Target::new(exit, leaving),
                        otherwise: Target::to(more),
                    },
                );
                self.switch_to(more);
            },
            None => {},
        }
    }

    /// What the counter goes on with.
    pub fn count_on(
        &mut self,
        source: Source,
        current: Value,
        element: &Ty,
        span: Span,
    ) -> (produced: Value)
        ensures
            (final(self)@, produced) == old(self)@.count_on(source, current, element@, span),
    {
        proof {
            reveal(BodyView::count_on);
        }
        let one_more = self.emit(InstKind::Const(Const::Int(1)), element.clone(), span);
        self.emit(
            InstKind::Binary { op: step_op(source), left: current, right: one_more },
            element.clone(),
            span,
        )
    }

    /// Whether another pass runs.
    pub fn goes_on(&mut self, source: Source, current: Value, span: Span) -> (produced: Value)
        ensures
            (final(self)@, produced) == old(self)@.goes_on(source, current, span),
    {
        proof {
            reveal(BodyView::goes_on);
        }
        let bound = match source {
            Source::Range { last, inclusive } => {
                last
            },
            Source::Reversed { first, inclusive } => {
                first
            },
            Source::List { receiver, indexed } => {
                self.emit(InstKind::Length { receiver }, Ty::integer(), span)
            },
            Source::Table(receiver) => {
                self.emit(InstKind::Buckets { receiver }, Ty::integer(), span)
            },
        };
        self.emit(
            InstKind::Binary { op: bound_op(source), left: current, right: bound },
            Ty::Bool,
            span,
        )
    }

    /// Binds what one pass runs for. A pass over a bucket that is not occupied goes
    /// straight to the next.
    pub fn bind_counted(
        &mut self,
        counted: &Counted,
        current: Value,
        bindings: &'a Vec<Binding>,
        step: BlockId,
        leaving: &Vec<Value>,
        span: Span,
        fuel: u32,
    )
        ensures
            final(self)@ == old(self)@.bind_counted(
                counted@,
                current,
                bindings@,
                step,
                leaving@,
                span,
                deeper(fuel as nat),
            ),
        decreases fuel, 4nat, 0nat,
    {
        proof {
            reveal(BodyView::bind_counted);
        }
        match counted.source {
            Source::Range { last, inclusive } => {},
            Source::Reversed { first, inclusive } => {
                let value = if inclusive {
                    current
                } else {
                    let one_less = self.emit(
                        InstKind::Const(Const::Int(1)),
                        counted.element.clone(),
                        span,
                    );
                    self.emit(
                        InstKind::Binary { op: BinaryOp::Subtract, left: current, right: one_less },
                        counted.element.clone(),
                        span,
                    )
                };
                self.bind_each(bindings, &one(value), span, fuel);
            },
            Source::List { receiver, indexed } => {
                let held = self.collection_args(receiver);
                let element = self.emit(
                    InstKind::GetIndex { receiver, index: current },
                    ty_or_never(&held, 0),
                    span,
                );
                if indexed {
                    self.bind_each(bindings, &two(current, element), span, fuel);
                } else {
                    self.bind_each(bindings, &one(element), span, fuel);
                }
            },
            Source::Table(receiver) => {
                let occupied = self.emit(
                    InstKind::Occupied { receiver, index: current },
                    Ty::Bool,
                    span,
                );
                let found = self.add_block(span);
                self.terminate(
                    Terminator::Branch {
                        condition: occupied,
                        then: Target::to(found),
                        otherwise: Target::new(step, clone_values(leaving)),
                    },
                );
                self.switch_to(found);
                let held = self.collection_args(receiver);
                self.bind_entries(bindings, receiver, current, &held, span, fuel);
            },
        }
    }

    /// Each binding pointed at the value in its position.
    pub fn bind_each(
        &mut self,
        bindings: &'a Vec<Binding>,
        values: &Vec<Value>,
        span: Span,
        fuel: u32,
    )
        ensures
            final(self)@ == old(self)@.bind_each(
                bindings@,
                values@,
                span,
                deeper(fuel as nat),
                bindings@.len(),
            ),
        decreases fuel, 1nat, bindings@.len(),
    {
        let ghost start = self@;
        let mut i: usize = 0;
        proof {
            reveal(BodyView::bind_each);
        }
        while i < bindings.len()
            invariant
                i <= bindings.len(),
                self@ == start.bind_each(bindings@, values@, span, deeper(fuel as nat), i as nat),
            decreases bindings.len() - i,
        {
            proof {
                reveal(BodyView::bind_each);
            }
            if i < values.len() {
                self.bind_value(&bindings[i], values[i], span, fuel);
            }
            i += 1;
        }
    }

    /// Each binding pointed at the key or the value of an entry.
    pub fn bind_entries(
        &mut self,
        bindings: &'a Vec<Binding>,
        receiver: Value,
        current: Value,
        held: &Vec<Ty>,
        span: Span,
        fuel: u32,
    )
        ensures
            final(self)@ == old(self)@.bind_entries(
                bindings@,
                receiver,
                current,
                tys(held@),
                span,
                deeper(fuel as nat),
                bindings@.len(),
            ),
        decreases fuel, 1nat, bindings@.len(),
    {
        let ghost start = self@;
        let mut i: usize = 0;
        proof {
            reveal(BodyView::bind_entries);
        }
        while i < bindings.len()
            invariant
                i <= bindings.len(),
                self@ == start.bind_entries(
                    bindings@,
                    receiver,
                    current,
                    tys(held@),
                    span,
                    deeper(fuel as nat),
                    i as nat,
                ),
            decreases bindings.len() - i,
        {
            proof {
                reveal(BodyView::bind_entries);
            }
            if i < held.len() && i < 2 {
                let value = self.emit(
                    entry_read(i == 0, receiver, current),
                    ty_or_never(held, i),
                    span,
                );
                self.bind_value(&bindings[i], value, span, fuel);
            }
            i += 1;
        }
    }
}

/// Where what is counted through takes in its bound, a pass that ran for the bound
/// is the last: the counter goes on only in a block that is entered where it is
/// something else.
pub proof fn a_range_stops_at_its_bound<'a>(
    b: BodyView<'a>,
    source: Source,
    current: Value,
    exit: BlockId,
    carried: Seq<u32>,
    span: Span,
    bound: Value,
)
    requires
        last_of_view(source) == Some(bound),
        b.has_room(),
        b.function.blocks.len() < id_limit(),
        b.current.0 < b.function.blocks.len(),
        b.function.block(b.current).term is None,
    ensures
        ({
            let after = b.stop_at_last(source, current, exit, carried, span);
            let ended = after.function.block(b.current);
            &&& ended.insts.last().kind == (InstKindView::Binary {
                op: BinaryOp::Equal,
                left: current,
                right: bound,
            })
            &&& ended.term == Some(
                TerminatorView::Branch {
                    condition: ended.insts.last().result->Some_0,
                    then: TargetView { block: exit, args: b.defs_of(carried) },
                    otherwise: TargetView::to(after.current),
                },
            )
            &&& after.current.0 == b.function.blocks.len()
            &&& after.function.block(after.current) == BlockView::empty()
        }),
{
    reveal(BodyView::stop_at_last);
    reveal(BodyView::emit);
    reveal(BodyView::add_block);
    reveal(BodyView::terminate);
    reveal(BodyView::switch_to);
    let kind = InstKindView::Binary { op: BinaryOp::Equal, left: current, right: bound };
    let (tested, ended) = b.emit(kind, TyView::Bool, span);
    let (opened, more) = tested.add_block(span);
    assert(opened.defs_of(carried) =~= b.defs_of(carried)) by {
        reveal(BodyView::defs_of);
        reveal(BodyView::def_of);
    }
    let after = b.stop_at_last(source, current, exit, carried, span);
    assert(opened.function.block(b.current) == tested.function.block(b.current));
    assert(opened.function.block(b.current).term is None);
    assert(after.current == more);
    assert(after.function.block(b.current).insts == tested.function.block(b.current).insts);
    assert(after.function.block(more) == opened.function.block(more));
    assert(opened.function.block(more) == BlockView::empty());
}

} // verus!
