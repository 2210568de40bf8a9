//! Which functions an exception can escape.
//!
//! Exceptions do not appear in signatures, so the set is worked out from the
//! whole program: a function throws if it writes a `throw` nothing around it
//! catches, or if it calls one that does. Calling into itself makes that
//! circular, so the set grows a round at a time until it stops growing.

use vstd::prelude::*;

use crate::ast::{
    ArmBody, Argument, Block, Branch, CatchClause, Expr, ExprKind, FieldInit, IfBranch,
    InterpolationPart, MapEntry, MapKey, MatchArm, Param, Stmt, StmtKind,
};
use crate::sema::{Facts, ModuleId, Type};
use crate::span::Span;
use crate::text::same_text;

verus! {

/// A declared interface.
#[derive(Debug, Clone, Copy)]
pub struct InterfaceName<'a> {
    pub module: ModuleId,
    pub name: &'a String,
}

/// A declaration with a body: where it stands, and what it does.
#[derive(Clone, Copy)]
pub struct Written<'a> {
    pub span: Span,
    pub body: &'a Block,
}

/// What deciding whether something throws takes: what the checker recorded, the
/// declarations already known to throw, and the interfaces. The declarations
/// only ever grow, so an answer of `true` stays true in later rounds.
pub struct Scan<'a> {
    pub facts: &'a Facts,
    pub throwing: &'a Vec<Span>,
    pub interfaces: &'a Vec<InterfaceName<'a>>,
}

/// A [`Scan`] with the declarations as a sequence.
pub struct ScanView<'a> {
    pub facts: Facts,
    pub throwing: Seq<Span>,
    pub interfaces: Seq<InterfaceName<'a>>,
}

impl<'a> View for Scan<'a> {
    type V = ScanView<'a>;

    open spec fn view(&self) -> ScanView<'a> {
        ScanView {
            facts: *self.facts,
            throwing: self.throwing@,
            interfaces: self.interfaces@,
        }
    }
}

/// Whether a type is one of the interfaces.
pub open spec fn is_declared_interface(
    interfaces: Seq<InterfaceName>,
    module: ModuleId,
    name: Seq<char>,
) -> bool {
    exists|i: int|
        0 <= i < interfaces.len() && (#[trigger] interfaces[i]).module == module
            && interfaces[i].name@ == name
}

/// Whether what a receiver holds is only known by what it satisfies.
pub open spec fn is_interface(scan: ScanView, receiver: Span) -> bool {
    match scan.facts.spec_type_of(receiver) {
        Some(Type::Named { module, name, args }) => is_declared_interface(
            scan.interfaces,
            module,
            name@,
        ),
        Some(Type::Parameter(_)) => true,
        Some(Type::Intersection(_)) => true,
        _ => false,
    }
}

/// Whether the call at `span` reaches a declaration that throws.
pub open spec fn reaches_a_throw(scan: ScanView, span: Span) -> bool {
    match scan.facts.spec_call(span) {
        Some(declaration) => scan.throwing.contains(declaration),
        None => false,
    }
}

/// Whether the call at `span` is through a function value.
pub open spec fn is_through_value(scan: ScanView, span: Span, callee: Span) -> bool {
    &&& scan.facts.spec_call(span) is None
    &&& scan.facts.spec_builtin(span) is None
    &&& scan.facts.spec_type_of(callee) matches Some(ty) && ty is Function
}

/// Whether evaluating an expression can throw. A closure runs where it is
/// called, not where it is written, so what it throws belongs to whoever calls
/// it.
pub open spec fn expr_throws(scan: ScanView, expr: Expr) -> bool
    decreases expr, 0nat,
{
    match expr.kind {
        ExprKind::Unary { op, operand } => expr_throws(scan, *operand),
        ExprKind::Binary { op, op_span, left, right } => expr_throws(scan, *left) || expr_throws(scan, *right),
        ExprKind::Range { start, end, inclusive } => (match start { Some(held) => expr_throws(scan, *held), None => false }) || (match end { Some(held) => expr_throws(scan, *held), None => false }),
        ExprKind::Call { callee, method, args } => reaches_a_throw(scan, expr.span) || (method is Some && is_interface(scan, callee.span))
            || is_through_value(scan, expr.span, callee.span) || expr_throws(scan, *callee)
            || arguments_throw(scan, args@, args@.len()),
        ExprKind::Field { receiver, name, optional } => expr_throws(scan, *receiver),
        ExprKind::Index { receiver, index, optional } => expr_throws(scan, *receiver) || expr_throws(scan, *index),
        ExprKind::Try(inner) => expr_throws(scan, *inner),
        ExprKind::Await(_) => true,
        ExprKind::AddressOf { mutable, operand } => expr_throws(scan, *operand),
        ExprKind::Cast { value } => expr_throws(scan, *value),
        ExprKind::TypeTest { value } => expr_throws(scan, *value),
        ExprKind::Tuple(members) => exprs_throw(scan, members@, members@.len()),
        ExprKind::List(members) => exprs_throw(scan, members@, members@.len()),
        ExprKind::SetOf(members) => exprs_throw(scan, members@, members@.len()),
        ExprKind::Record { path, fields } => inits_throw(scan, fields@, fields@.len()),
        ExprKind::MapOf(entries) => entries_throw(scan, entries@, entries@.len()),
        ExprKind::Interpolation(parts) => parts_throw(scan, parts@, parts@.len()),
        ExprKind::Function { asynchronous, params, body } => params_throw(scan, params@, params@.len()),
        ExprKind::Match { scrutinee, arms } => expr_throws(scan, *scrutinee) || arms_throw(scan, arms@, arms@.len()),
        ExprKind::If { branches, otherwise } => values_throw(scan, branches@, branches@.len()) || expr_throws(scan, *otherwise),
        _ => false,
    }
}

/// Whether one of the clauses catches whatever is thrown.
pub open spec fn catches_all(catches: Seq<CatchClause>) -> bool {
    exists|i: int| 0 <= i < catches.len() && !(#[trigger] catches[i]).typed
}

/// Whether running a statement can throw. A clause with no type catches
/// whatever the body threw, so only what the clauses and the `finally` throw
/// gets out.
pub open spec fn stmt_throws(scan: ScanView, stmt: Stmt) -> bool
    decreases stmt, 0nat,
{
    match stmt.kind {
        StmtKind::Local { binding, value } => (match value { Some(inner) => expr_throws(scan, inner), None => false }),
        StmtKind::Const { binding, value } => expr_throws(scan, value),
        StmtKind::Assign { target, op, value } => expr_throws(scan, target) || expr_throws(scan, value),
        StmtKind::If { branches, otherwise } => branches_throw(scan, branches@, branches@.len()) || (match otherwise { Some(held) => stmts_throw(scan, held.stmts@, held.stmts@.len()), None => false }),
        StmtKind::While { label, condition, body } => expr_throws(scan, condition) || stmts_throw(scan, body.stmts@, body.stmts@.len()),
        StmtKind::Repeat { label, body, until } => stmts_throw(scan, body.stmts@, body.stmts@.len()) || expr_throws(scan, until),
        StmtKind::For { label, bindings, iterable, body } => expr_throws(scan, iterable) || stmts_throw(scan, body.stmts@, body.stmts@.len()),
        StmtKind::Unsafe(body) => stmts_throw(scan, body.stmts@, body.stmts@.len()),
        StmtKind::Defer(value) => expr_throws(scan, value),
        StmtKind::Expr(value) => expr_throws(scan, value),
        StmtKind::Match { scrutinee, arms } => expr_throws(scan, scrutinee) || arms_throw(scan, arms@, arms@.len()),
        StmtKind::Return(value) => (match value { Some(inner) => expr_throws(scan, inner), None => false }),
        StmtKind::Throw(_) => true,
        StmtKind::Try { body, catches, finally } => (stmts_throw(scan, body.stmts@, body.stmts@.len()) && !catches_all(
            catches@,
        )) || catches_throw(scan, catches@, catches@.len())
            || (match finally { Some(held) => stmts_throw(scan, held.stmts@, held.stmts@.len()), None => false }),
        _ => false,
    }
}

/// Whether one of the first `count` of these can throw.
pub open spec fn exprs_throw(scan: ScanView, list: Seq<Expr>, count: nat) -> bool
    decreases list, count,
{
    if count == 0 || count > list.len() {
        false
    } else {
        let held = list[count - 1];
        exprs_throw(scan, list, (count - 1) as nat) || expr_throws(scan, held)
    }
}

/// Whether one of the first `count` of these can throw.
pub open spec fn arguments_throw(scan: ScanView, list: Seq<Argument>, count: nat) -> bool
    decreases list, count,
{
    if count == 0 || count > list.len() {
        false
    } else {
        let held = list[count - 1];
        arguments_throw(scan, list, (count - 1) as nat) || expr_throws(scan, held.value)
    }
}

/// Whether one of the first `count` of these can throw.
pub open spec fn inits_throw(scan: ScanView, list: Seq<FieldInit>, count: nat) -> bool
    decreases list, count,
{
    if count == 0 || count > list.len() {
        false
    } else {
        let held = list[count - 1];
        inits_throw(scan, list, (count - 1) as nat) || expr_throws(scan, held.value)
    }
}

/// Whether one of the first `count` of these can throw.
pub open spec fn entries_throw(scan: ScanView, list: Seq<MapEntry>, count: nat) -> bool
    decreases list, count,
{
    if count == 0 || count > list.len() {
        false
    } else {
        let held = list[count - 1];
        entries_throw(scan, list, (count - 1) as nat) || (match held.key { MapKey::Computed(key) => expr_throws(scan, key), MapKey::Name(_) => false }) || expr_throws(scan, held.value)
    }
}

/// Whether one of the first `count` of these can throw.
pub open spec fn parts_throw(scan: ScanView, list: Seq<InterpolationPart>, count: nat) -> bool
    decreases list, count,
{
    if count == 0 || count > list.len() {
        false
    } else {
        let held = list[count - 1];
        parts_throw(scan, list, (count - 1) as nat) || (match held { InterpolationPart::Expr(part) => expr_throws(scan, part), InterpolationPart::Text(_) => false })
    }
}

/// Whether one of the first `count` of these can throw.
pub open spec fn params_throw(scan: ScanView, list: Seq<Param>, count: nat) -> bool
    decreases list, count,
{
    if count == 0 || count > list.len() {
        false
    } else {
        let held = list[count - 1];
        params_throw(scan, list, (count - 1) as nat) || (match held.default { Some(inner) => expr_throws(scan, inner), None => false })
    }
}

/// Whether one of the first `count` of these can throw.
pub open spec fn arms_throw(scan: ScanView, list: Seq<MatchArm>, count: nat) -> bool
    decreases list, count,
{
    if count == 0 || count > list.len() {
        false
    } else {
        let held = list[count - 1];
        arms_throw(scan, list, (count - 1) as nat) || (match held.guard { Some(inner) => expr_throws(scan, inner), None => false }) || (match held.body { ArmBody::Block(body) => stmts_throw(scan, body.stmts@, body.stmts@.len()), ArmBody::Expr(value) => expr_throws(scan, value) })
    }
}

/// Whether one of the first `count` of these can throw.
pub open spec fn values_throw(scan: ScanView, list: Seq<IfBranch>, count: nat) -> bool
    decreases list, count,
{
    if count == 0 || count > list.len() {
        false
    } else {
        let held = list[count - 1];
        values_throw(scan, list, (count - 1) as nat) || expr_throws(scan, held.condition) || expr_throws(scan, held.value)
    }
}

/// Whether one of the first `count` of these can throw.
pub open spec fn stmts_throw(scan: ScanView, list: Seq<Stmt>, count: nat) -> bool
    decreases list, count,
{
    if count == 0 || count > list.len() {
        false
    } else {
        let held = list[count - 1];
        stmts_throw(scan, list, (count - 1) as nat) || stmt_throws(scan, held)
    }
}

/// Whether one of the first `count` of these can throw.
pub open spec fn branches_throw(scan: ScanView, list: Seq<Branch>, count: nat) -> bool
    decreases list, count,
{
    if count == 0 || count > list.len() {
        false
    } else {
        let held = list[count - 1];
        branches_throw(scan, list, (count - 1) as nat) || expr_throws(scan, held.condition) || stmts_throw(scan, held.body.stmts@, held.body.stmts@.len())
    }
}

/// Whether one of the first `count` of these can throw.
pub open spec fn catches_throw(scan: ScanView, list: Seq<CatchClause>, count: nat) -> bool
    decreases list, count,
{
    if count == 0 || count > list.len() {
        false
    } else {
        let held = list[count - 1];
        catches_throw(scan, list, (count - 1) as nat) || stmts_throw(scan, held.body.stmts@, held.body.stmts@.len())
    }
}

fn does_reach(scan: &Scan, span: Span) -> (reaches: bool)
    ensures
        reaches == reaches_a_throw(scan@, span),
{
    match scan.facts.call(span) {
        Some(declaration) => contains_span(scan.throwing, declaration),
        None => false,
    }
}

/// Whether a list holds `span`.
pub fn contains_span(held: &Vec<Span>, span: Span) -> (found: bool)
    ensures
        found == held@.contains(span),
{
    let mut i: usize = 0;
    while i < held.len()
        invariant
            i <= held.len(),
            forall|k: int| 0 <= k < i ==> held@[k] != span,
        decreases held.len() - i,
    {
        if held[i] == span {
            assert(held@[i as int] == span);
            return true;
        }
        i += 1;
    }
    false
}

fn is_one_of(interfaces: &Vec<InterfaceName>, module: ModuleId, name: &String) -> (found: bool)
    ensures
        found == is_declared_interface(interfaces@, module, name@),
{
    let mut i: usize = 0;
    while i < interfaces.len()
        invariant
            i <= interfaces.len(),
            forall|k: int|
                0 <= k < i ==> !((#[trigger] interfaces@[k]).module == module
                    && interfaces@[k].name@ == name@),
        decreases interfaces.len() - i,
    {
        if interfaces[i].module == module && same_text(interfaces[i].name.as_str(), name.as_str()) {
            assert(interfaces@[i as int].module == module);
            return true;
        }
        i += 1;
    }
    false
}

fn is_dispatched(scan: &Scan, receiver: Span) -> (dispatched: bool)
    ensures
        dispatched == is_interface(scan@, receiver),
{
    match scan.facts.type_of(receiver) {
        Some(Type::Named { module, name, .. }) => is_one_of(scan.interfaces, *module, name),
        Some(Type::Parameter(_)) => true,
        Some(Type::Intersection(_)) => true,
        _ => false,
    }
}

fn is_indirect(scan: &Scan, span: Span, callee: Span) -> (indirect: bool)
    ensures
        indirect == is_through_value(scan@, span, callee),
{
    scan.facts.call(span).is_none() && scan.facts.builtin(span).is_none() && match scan.facts.type_of(
        callee,
    ) {
        Some(Type::Function { .. }) => true,
        _ => false,
    }
}

fn has_catch_all(catches: &Vec<CatchClause>) -> (found: bool)
    ensures
        found == catches_all(catches@),
{
    let mut i: usize = 0;
    while i < catches.len()
        invariant
            i <= catches.len(),
            forall|k: int| 0 <= k < i ==> (#[trigger] catches@[k]).typed,
        decreases catches.len() - i,
    {
        if !catches[i].typed {
            assert(!catches@[i as int].typed);
            return true;
        }
        i += 1;
    }
    false
}

fn scan_expr(scan: &Scan, expr: &Expr) -> (throws: bool)
    ensures
        throws == expr_throws(scan@, *expr),
    decreases *expr, 0nat,
{
    match &expr.kind {
        ExprKind::Unary { op, operand } => scan_expr(scan, operand),
        ExprKind::Binary { op, op_span, left, right } => scan_expr(scan, left) || scan_expr(scan, right),
        ExprKind::Range { start, end, inclusive } => (match start { Some(held) => scan_expr(scan, held), None => false }) || (match end { Some(held) => scan_expr(scan, held), None => false }),
        ExprKind::Call { callee, method, args } => does_reach(scan, expr.span) || (method.is_some() && is_dispatched(scan, callee.span))
            || is_indirect(scan, expr.span, callee.span) || scan_expr(scan, callee)
            || scan_arguments(scan, args),
        ExprKind::Field { receiver, name, optional } => scan_expr(scan, receiver),
        ExprKind::Index { receiver, index, optional } => scan_expr(scan, receiver) || scan_expr(scan, index),
        ExprKind::Try(inner) => scan_expr(scan, inner),
        ExprKind::Await(_) => true,
        ExprKind::AddressOf { mutable, operand } => scan_expr(scan, operand),
        ExprKind::Cast { value } => scan_expr(scan, value),
        ExprKind::TypeTest { value } => scan_expr(scan, value),
        ExprKind::Tuple(members) => scan_exprs(scan, members),
        ExprKind::List(members) => scan_exprs(scan, members),
        ExprKind::SetOf(members) => scan_exprs(scan, members),
        ExprKind::Record { path, fields } => scan_inits(scan, fields),
        ExprKind::MapOf(entries) => scan_entries(scan, entries),
        ExprKind::Interpolation(parts) => scan_parts(scan, parts),
        ExprKind::Function { params, .. } => scan_params(scan, params),
        ExprKind::Match { scrutinee, arms } => scan_expr(scan, scrutinee) || scan_arms(scan, arms),
        ExprKind::If { branches, otherwise } => scan_values(scan, branches) || scan_expr(scan, otherwise),
        _ => false,
    }
}

fn scan_stmt(scan: &Scan, stmt: &Stmt) -> (throws: bool)
    ensures
        throws == stmt_throws(scan@, *stmt),
    decreases *stmt, 0nat,
{
    match &stmt.kind {
        StmtKind::Local { binding, value } => (match value { Some(inner) => scan_expr(scan, inner), None => false }),
        StmtKind::Const { binding, value } => scan_expr(scan, value),
        StmtKind::Assign { target, op, value } => scan_expr(scan, target) || scan_expr(scan, value),
        StmtKind::If { branches, otherwise } => scan_branches(scan, branches) || (match otherwise { Some(held) => scan_stmts(scan, &held.stmts), None => false }),
        StmtKind::While { label, condition, body } => scan_expr(scan, condition) || scan_stmts(scan, &body.stmts),
        StmtKind::Repeat { label, body, until } => scan_stmts(scan, &body.stmts) || scan_expr(scan, until),
        StmtKind::For { label, bindings, iterable, body } => scan_expr(scan, iterable) || scan_stmts(scan, &body.stmts),
        StmtKind::Unsafe(body) => scan_stmts(scan, &body.stmts),
        StmtKind::Defer(value) => scan_expr(scan, value),
        StmtKind::Expr(value) => scan_expr(scan, value),
        StmtKind::Match { scrutinee, arms } => scan_expr(scan, scrutinee) || scan_arms(scan, arms),
        StmtKind::Return(value) => (match value { Some(inner) => scan_expr(scan, inner), None => false }),
        StmtKind::Throw(_) => true,
        StmtKind::Try { body, catches, finally } => (scan_stmts(scan, &body.stmts) && !has_catch_all(catches)) || scan_catches(
            scan,
            catches,
        ) || (match finally { Some(held) => scan_stmts(scan, &held.stmts), None => false }),
        _ => false,
    }
}

proof fn exprs_still_throw(scan: ScanView, list: Seq<Expr>, first: nat, last: nat)
    requires
        first <= last <= list.len(),
        exprs_throw(scan, list, first),
    ensures
        exprs_throw(scan, list, last),
    decreases last,
{
    if first < last {
        exprs_still_throw(scan, list, first, (last - 1) as nat);
    }
}

fn scan_exprs(scan: &Scan, list: &Vec<Expr>) -> (throws: bool)
    ensures
        throws == exprs_throw(scan@, list@, list@.len()),
    decreases list@, list@.len(),
{
    let mut i: usize = 0;
    while i < list.len()
        invariant
            i <= list.len(),
            !exprs_throw(scan@, list@, i as nat),
        decreases list.len() - i,
    {
        let held = &list[i];
        assert(decreases_to!(list@ => list@[i as int]));
        if scan_expr(scan, held) {
            proof {
                exprs_still_throw(scan@, list@, (i + 1) as nat, list@.len());
            }
            return true;
        }
        i += 1;
    }
    false
}

proof fn arguments_still_throw(scan: ScanView, list: Seq<Argument>, first: nat, last: nat)
    requires
        first <= last <= list.len(),
        arguments_throw(scan, list, first),
    ensures
        arguments_throw(scan, list, last),
    decreases last,
{
    if first < last {
        arguments_still_throw(scan, list, first, (last - 1) as nat);
    }
}

fn scan_arguments(scan: &Scan, list: &Vec<Argument>) -> (throws: bool)
    ensures
        throws == arguments_throw(scan@, list@, list@.len()),
    decreases list@, list@.len(),
{
    let mut i: usize = 0;
    while i < list.len()
        invariant
            i <= list.len(),
            !arguments_throw(scan@, list@, i as nat),
        decreases list.len() - i,
    {
        let held = &list[i];
        assert(decreases_to!(list@ => list@[i as int]));
        if scan_expr(scan, &held.value) {
            proof {
                arguments_still_throw(scan@, list@, (i + 1) as nat, list@.len());
            }
            return true;
        }
        i += 1;
    }
    false
}

proof fn inits_still_throw(scan: ScanView, list: Seq<FieldInit>, first: nat, last: nat)
    requires
        first <= last <= list.len(),
        inits_throw(scan, list, first),
    ensures
        inits_throw(scan, list, last),
    decreases last,
{
    if first < last {
        inits_still_throw(scan, list, first, (last - 1) as nat);
    }
}

fn scan_inits(scan: &Scan, list: &Vec<FieldInit>) -> (throws: bool)
    ensures
        throws == inits_throw(scan@, list@, list@.len()),
    decreases list@, list@.len(),
{
    let mut i: usize = 0;
    while i < list.len()
        invariant
            i <= list.len(),
            !inits_throw(scan@, list@, i as nat),
        decreases list.len() - i,
    {
        let held = &list[i];
        assert(decreases_to!(list@ => list@[i as int]));
        if scan_expr(scan, &held.value) {
            proof {
                inits_still_throw(scan@, list@, (i + 1) as nat, list@.len());
            }
            return true;
        }
        i += 1;
    }
    false
}

proof fn entries_still_throw(scan: ScanView, list: Seq<MapEntry>, first: nat, last: nat)
    requires
        first <= last <= list.len(),
        entries_throw(scan, list, first),
    ensures
        entries_throw(scan, list, last),
    decreases last,
{
    if first < last {
        entries_still_throw(scan, list, first, (last - 1) as nat);
    }
}

fn scan_entries(scan: &Scan, list: &Vec<MapEntry>) -> (throws: bool)
    ensures
        throws == entries_throw(scan@, list@, list@.len()),
    decreases list@, list@.len(),
{
    let mut i: usize = 0;
    while i < list.len()
        invariant
            i <= list.len(),
            !entries_throw(scan@, list@, i as nat),
        decreases list.len() - i,
    {
        let held = &list[i];
        assert(decreases_to!(list@ => list@[i as int]));
        if (match &held.key { MapKey::Computed(key) => scan_expr(scan, key), MapKey::Name(_) => false }) || scan_expr(scan, &held.value) {
            proof {
                entries_still_throw(scan@, list@, (i + 1) as nat, list@.len());
            }
            return true;
        }
        i += 1;
    }
    false
}

proof fn parts_still_throw(scan: ScanView, list: Seq<InterpolationPart>, first: nat, last: nat)
    requires
        first <= last <= list.len(),
        parts_throw(scan, list, first),
    ensures
        parts_throw(scan, list, last),
    decreases last,
{
    if first < last {
        parts_still_throw(scan, list, first, (last - 1) as nat);
    }
}

fn scan_parts(scan: &Scan, list: &Vec<InterpolationPart>) -> (throws: bool)
    ensures
        throws == parts_throw(scan@, list@, list@.len()),
    decreases list@, list@.len(),
{
    let mut i: usize = 0;
    while i < list.len()
        invariant
            i <= list.len(),
            !parts_throw(scan@, list@, i as nat),
        decreases list.len() - i,
    {
        let held = &list[i];
        assert(decreases_to!(list@ => list@[i as int]));
        if (match held { InterpolationPart::Expr(part) => scan_expr(scan, part), InterpolationPart::Text(_) => false }) {
            proof {
                parts_still_throw(scan@, list@, (i + 1) as nat, list@.len());
            }
            return true;
        }
        i += 1;
    }
    false
}

proof fn params_still_throw(scan: ScanView, list: Seq<Param>, first: nat, last: nat)
    requires
        first <= last <= list.len(),
        params_throw(scan, list, first),
    ensures
        params_throw(scan, list, last),
    decreases last,
{
    if first < last {
        params_still_throw(scan, list, first, (last - 1) as nat);
    }
}

fn scan_params(scan: &Scan, list: &Vec<Param>) -> (throws: bool)
    ensures
        throws == params_throw(scan@, list@, list@.len()),
    decreases list@, list@.len(),
{
    let mut i: usize = 0;
    while i < list.len()
        invariant
            i <= list.len(),
            !params_throw(scan@, list@, i as nat),
        decreases list.len() - i,
    {
        let held = &list[i];
        assert(decreases_to!(list@ => list@[i as int]));
        if (match &held.default { Some(inner) => scan_expr(scan, inner), None => false }) {
            proof {
                params_still_throw(scan@, list@, (i + 1) as nat, list@.len());
            }
            return true;
        }
        i += 1;
    }
    false
}

proof fn arms_still_throw(scan: ScanView, list: Seq<MatchArm>, first: nat, last: nat)
    requires
        first <= last <= list.len(),
        arms_throw(scan, list, first),
    ensures
        arms_throw(scan, list, last),
    decreases last,
{
    if first < last {
        arms_still_throw(scan, list, first, (last - 1) as nat);
    }
}

fn scan_arms(scan: &Scan, list: &Vec<MatchArm>) -> (throws: bool)
    ensures
        throws == arms_throw(scan@, list@, list@.len()),
    decreases list@, list@.len(),
{
    let mut i: usize = 0;
    while i < list.len()
        invariant
            i <= list.len(),
            !arms_throw(scan@, list@, i as nat),
        decreases list.len() - i,
    {
        let held = &list[i];
        assert(decreases_to!(list@ => list@[i as int]));
        if (match &held.guard { Some(inner) => scan_expr(scan, inner), None => false }) || (match &held.body { ArmBody::Block(body) => scan_stmts(scan, &body.stmts), ArmBody::Expr(value) => scan_expr(scan, value) }) {
            proof {
                arms_still_throw(scan@, list@, (i + 1) as nat, list@.len());
            }
            return true;
        }
        i += 1;
    }
    false
}

proof fn values_still_throw(scan: ScanView, list: Seq<IfBranch>, first: nat, last: nat)
    requires
        first <= last <= list.len(),
        values_throw(scan, list, first),
    ensures
        values_throw(scan, list, last),
    decreases last,
{
    if first < last {
        values_still_throw(scan, list, first, (last - 1) as nat);
    }
}

fn scan_values(scan: &Scan, list: &Vec<IfBranch>) -> (throws: bool)
    ensures
        throws == values_throw(scan@, list@, list@.len()),
    decreases list@, list@.len(),
{
    let mut i: usize = 0;
    while i < list.len()
        invariant
            i <= list.len(),
            !values_throw(scan@, list@, i as nat),
        decreases list.len() - i,
    {
        let held = &list[i];
        assert(decreases_to!(list@ => list@[i as int]));
        if scan_expr(scan, &held.condition) || scan_expr(scan, &held.value) {
            proof {
                values_still_throw(scan@, list@, (i + 1) as nat, list@.len());
            }
            return true;
        }
        i += 1;
    }
    false
}

proof fn stmts_still_throw(scan: ScanView, list: Seq<Stmt>, first: nat, last: nat)
    requires
        first <= last <= list.len(),
        stmts_throw(scan, list, first),
    ensures
        stmts_throw(scan, list, last),
    decreases last,
{
    if first < last {
        stmts_still_throw(scan, list, first, (last - 1) as nat);
    }
}

fn scan_stmts(scan: &Scan, list: &Vec<Stmt>) -> (throws: bool)
    ensures
        throws == stmts_throw(scan@, list@, list@.len()),
    decreases list@, list@.len(),
{
    let mut i: usize = 0;
    while i < list.len()
        invariant
            i <= list.len(),
            !stmts_throw(scan@, list@, i as nat),
        decreases list.len() - i,
    {
        let held = &list[i];
        assert(decreases_to!(list@ => list@[i as int]));
        if scan_stmt(scan, held) {
            proof {
                stmts_still_throw(scan@, list@, (i + 1) as nat, list@.len());
            }
            return true;
        }
        i += 1;
    }
    false
}

proof fn branches_still_throw(scan: ScanView, list: Seq<Branch>, first: nat, last: nat)
    requires
        first <= last <= list.len(),
        branches_throw(scan, list, first),
    ensures
        branches_throw(scan, list, last),
    decreases last,
{
    if first < last {
        branches_still_throw(scan, list, first, (last - 1) as nat);
    }
}

fn scan_branches(scan: &Scan, list: &Vec<Branch>) -> (throws: bool)
    ensures
        throws == branches_throw(scan@, list@, list@.len()),
    decreases list@, list@.len(),
{
    let mut i: usize = 0;
    while i < list.len()
        invariant
            i <= list.len(),
            !branches_throw(scan@, list@, i as nat),
        decreases list.len() - i,
    {
        let held = &list[i];
        assert(decreases_to!(list@ => list@[i as int]));
        if scan_expr(scan, &held.condition) || scan_stmts(scan, &held.body.stmts) {
            proof {
                branches_still_throw(scan@, list@, (i + 1) as nat, list@.len());
            }
            return true;
        }
        i += 1;
    }
    false
}

proof fn catches_still_throw(scan: ScanView, list: Seq<CatchClause>, first: nat, last: nat)
    requires
        first <= last <= list.len(),
        catches_throw(scan, list, first),
    ensures
        catches_throw(scan, list, last),
    decreases last,
{
    if first < last {
        catches_still_throw(scan, list, first, (last - 1) as nat);
    }
}

fn scan_catches(scan: &Scan, list: &Vec<CatchClause>) -> (throws: bool)
    ensures
        throws == catches_throw(scan@, list@, list@.len()),
    decreases list@, list@.len(),
{
    let mut i: usize = 0;
    while i < list.len()
        invariant
            i <= list.len(),
            !catches_throw(scan@, list@, i as nat),
        decreases list.len() - i,
    {
        let held = &list[i];
        assert(decreases_to!(list@ => list@[i as int]));
        if scan_stmts(scan, &held.body.stmts) {
            proof {
                catches_still_throw(scan@, list@, (i + 1) as nat, list@.len());
            }
            return true;
        }
        i += 1;
    }
    false
}

/// A declaration with a body, as a mathematical value.
pub open spec fn written_views(bodies: Seq<Written>) -> Seq<(Span, Block)> {
    Seq::new(bodies.len(), |i: int| (bodies[i].span, *bodies[i].body))
}

/// Those of the first `count` declarations that throw once those in `throwing`
/// do, and are not among them.
pub open spec fn found_throwing(
    bodies: Seq<(Span, Block)>,
    scan: ScanView,
    count: nat,
) -> Seq<Span>
    decreases count,
{
    if count == 0 {
        Seq::empty()
    } else {
        let before = found_throwing(bodies, scan, (count - 1) as nat);
        let (span, body) = bodies[count - 1];
        if !scan.throwing.contains(span) && stmts_throw(scan, body.stmts@, body.stmts@.len()) {
            before.push(span)
        } else {
            before
        }
    }
}

/// The declarations known to throw after some rounds, each of which adds what
/// those before it make throw.
pub open spec fn throwing_after(
    bodies: Seq<(Span, Block)>,
    facts: Facts,
    interfaces: Seq<InterfaceName>,
    rounds: nat,
) -> Seq<Span>
    decreases rounds,
{
    if rounds == 0 {
        Seq::empty()
    } else {
        let throwing = throwing_after(bodies, facts, interfaces, (rounds - 1) as nat);
        throwing + found_throwing(bodies, ScanView { facts, throwing, interfaces }, bodies.len())
    }
}

/// How many of the first `count` declarations are not known to throw.
pub open spec fn unknown(bodies: Seq<(Span, Block)>, throwing: Seq<Span>, count: nat) -> nat
    decreases count,
{
    if count == 0 {
        0
    } else {
        unknown(bodies, throwing, (count - 1) as nat) + if throwing.contains(
            bodies[count - 1].0,
        ) {
            0nat
        } else {
            1nat
        }
    }
}

proof fn fewer_unknown(
    bodies: Seq<(Span, Block)>,
    throwing: Seq<Span>,
    more: Seq<Span>,
    count: nat,
)
    requires
        count <= bodies.len(),
    ensures
        unknown(bodies, throwing + more, count) <= unknown(bodies, throwing, count),
        forall|i: int|
            0 <= i < count && more.contains((#[trigger] bodies[i]).0) && !throwing.contains(
                bodies[i].0,
            ) ==> unknown(bodies, throwing + more, count) < unknown(bodies, throwing, count),
    decreases count,
{
    if count > 0 {
        fewer_unknown(bodies, throwing, more, (count - 1) as nat);
        let now = throwing + more;
        let span = bodies[count - 1].0;
        assert(now.contains(span) <==> throwing.contains(span) || more.contains(span)) by {
            if throwing.contains(span) {
                assert(now[throwing.index_of(span)] == span);
            }
            if more.contains(span) {
                assert(now[throwing.len() + more.index_of(span)] == span);
            }
            if now.contains(span) {
                let k = now.index_of(span);
                if k < throwing.len() {
                    assert(throwing[k] == span);
                } else {
                    assert(more[k - throwing.len()] == span);
                }
            }
        }
    }
}

proof fn found_are_new(bodies: Seq<(Span, Block)>, scan: ScanView, count: nat)
    requires
        count <= bodies.len(),
        found_throwing(bodies, scan, count).len() > 0,
    ensures
        exists|i: int|
            0 <= i < count && found_throwing(bodies, scan, count).contains(
                (#[trigger] bodies[i]).0,
            ) && !scan.throwing.contains(bodies[i].0),
    decreases count,
{
    if count > 0 {
        let before = found_throwing(bodies, scan, (count - 1) as nat);
        let now = found_throwing(bodies, scan, count);
        if before.len() > 0 {
            found_are_new(bodies, scan, (count - 1) as nat);
            let i = choose|i: int|
                0 <= i < count - 1 && before.contains((#[trigger] bodies[i]).0)
                    && !scan.throwing.contains(bodies[i].0);
            let k = before.index_of(bodies[i].0);
            assert(now[k] == bodies[i].0);
            assert(now.contains(bodies[i].0));
        } else {
            assert(now[0] == bodies[count - 1].0);
            assert(now.contains(bodies[count - 1].0));
        }
    }
}

/// The declarations an exception can escape, by the span of each: those that
/// throw once a round adds nothing, which a round for each is enough for.
pub open spec fn escaping_view(
    bodies: Seq<(Span, Block)>,
    facts: Facts,
    interfaces: Seq<InterfaceName>,
) -> Seq<Span> {
    throwing_after(bodies, facts, interfaces, bodies.len())
}

/// Once a round adds nothing, no later one does.
proof fn settled_stays(
    bodies: Seq<(Span, Block)>,
    facts: Facts,
    interfaces: Seq<InterfaceName>,
    first: nat,
    last: nat,
)
    requires
        first <= last,
        found_throwing(
            bodies,
            ScanView {
                facts,
                throwing: throwing_after(bodies, facts, interfaces, first),
                interfaces,
            },
            bodies.len(),
        ).len() == 0,
    ensures
        throwing_after(bodies, facts, interfaces, last) == throwing_after(
            bodies,
            facts,
            interfaces,
            first,
        ),
    decreases last - first,
{
    if first < last {
        settled_stays(bodies, facts, interfaces, first, (last - 1) as nat);
        let throwing = throwing_after(bodies, facts, interfaces, first);
        let found = found_throwing(
            bodies,
            ScanView { facts, throwing, interfaces },
            bodies.len(),
        );
        assert(throwing + found =~= throwing);
    }
}

proof fn few_unknown(bodies: Seq<(Span, Block)>, throwing: Seq<Span>, count: nat)
    ensures
        unknown(bodies, throwing, count) <= count,
    decreases count,
{
    if count > 0 {
        few_unknown(bodies, throwing, (count - 1) as nat);
    }
}

/// Whether the second knows of every declaration that throws the first knows of.
pub open spec fn knows_more(small: ScanView, large: ScanView) -> bool {
    &&& small.facts == large.facts
    &&& small.interfaces == large.interfaces
    &&& forall|span: Span| #[trigger]
        small.throwing.contains(span) ==> large.throwing.contains(span)
}

proof fn expr_grows(
    small: ScanView,
    large: ScanView,
    expr: Expr,
)
    requires
        knows_more(small, large),
    ensures
        expr_throws(small, expr) ==> expr_throws(large, expr),
    decreases expr, 0nat,
{
    match expr.kind {
        ExprKind::Unary { op, operand } => {
            expr_grows(small, large, *operand);
        },
        ExprKind::Binary { op, op_span, left, right } => {
            expr_grows(small, large, *left);
            expr_grows(small, large, *right);
        },
        ExprKind::Range { start, end, inclusive } => {
            match start {
                Some(held) => {
                    expr_grows(small, large, *held);
                },
                None => {},
            }
            match end {
                Some(held) => {
                    expr_grows(small, large, *held);
                },
                None => {},
            }
        },
        ExprKind::Call { callee, method, args } => {
            expr_grows(small, large, *callee);
            arguments_grow(small, large, args@, args@.len());
        },
        ExprKind::Field { receiver, name, optional } => {
            expr_grows(small, large, *receiver);
        },
        ExprKind::Index { receiver, index, optional } => {
            expr_grows(small, large, *receiver);
            expr_grows(small, large, *index);
        },
        ExprKind::Try(inner) => {
            expr_grows(small, large, *inner);
        },
        ExprKind::Await(_) => {},
        ExprKind::AddressOf { mutable, operand } => {
            expr_grows(small, large, *operand);
        },
        ExprKind::Cast { value } => {
            expr_grows(small, large, *value);
        },
        ExprKind::TypeTest { value } => {
            expr_grows(small, large, *value);
        },
        ExprKind::Tuple(members) => {
            exprs_grow(small, large, members@, members@.len());
        },
        ExprKind::List(members) => {
            exprs_grow(small, large, members@, members@.len());
        },
        ExprKind::SetOf(members) => {
            exprs_grow(small, large, members@, members@.len());
        },
        ExprKind::Record { path, fields } => {
            inits_grow(small, large, fields@, fields@.len());
        },
        ExprKind::MapOf(entries) => {
            entries_grow(small, large, entries@, entries@.len());
        },
        ExprKind::Interpolation(parts) => {
            parts_grow(small, large, parts@, parts@.len());
        },
        ExprKind::Function { asynchronous, params, body } => {
            params_grow(small, large, params@, params@.len());
        },
        ExprKind::Match { scrutinee, arms } => {
            expr_grows(small, large, *scrutinee);
            arms_grow(small, large, arms@, arms@.len());
        },
        ExprKind::If { branches, otherwise } => {
            values_grow(small, large, branches@, branches@.len());
            expr_grows(small, large, *otherwise);
        },
        _ => {},
    }
}

proof fn stmt_grows(
    small: ScanView,
    large: ScanView,
    stmt: Stmt,
)
    requires
        knows_more(small, large),
    ensures
        stmt_throws(small, stmt) ==> stmt_throws(large, stmt),
    decreases stmt, 0nat,
{
    match stmt.kind {
        StmtKind::Local { binding, value } => {
            match value {
                Some(inner) => {
                    expr_grows(small, large, inner);
                },
                None => {},
            }
        },
        StmtKind::Const { binding, value } => {
            expr_grows(small, large, value);
        },
        StmtKind::Assign { target, op, value } => {
            expr_grows(small, large, target);
            expr_grows(small, large, value);
        },
        StmtKind::If { branches, otherwise } => {
            branches_grow(small, large, branches@, branches@.len());
            match otherwise {
                Some(held) => {
                    stmts_grow(small, large, held.stmts@, held.stmts@.len());
                },
                None => {},
            }
        },
        StmtKind::While { label, condition, body } => {
            expr_grows(small, large, condition);
            stmts_grow(small, large, body.stmts@, body.stmts@.len());
        },
        StmtKind::Repeat { label, body, until } => {
            stmts_grow(small, large, body.stmts@, body.stmts@.len());
            expr_grows(small, large, until);
        },
        StmtKind::For { label, bindings, iterable, body } => {
            expr_grows(small, large, iterable);
            stmts_grow(small, large, body.stmts@, body.stmts@.len());
        },
        StmtKind::Unsafe(body) => {
            stmts_grow(small, large, body.stmts@, body.stmts@.len());
        },
        StmtKind::Defer(value) => {
            expr_grows(small, large, value);
        },
        StmtKind::Expr(value) => {
            expr_grows(small, large, value);
        },
        StmtKind::Match { scrutinee, arms } => {
            expr_grows(small, large, scrutinee);
            arms_grow(small, large, arms@, arms@.len());
        },
        StmtKind::Return(value) => {
            match value {
                Some(inner) => {
                    expr_grows(small, large, inner);
                },
                None => {},
            }
        },
        StmtKind::Throw(_) => {},
        StmtKind::Try { body, catches, finally } => {
            stmts_grow(small, large, body.stmts@, body.stmts@.len());
            catches_grow(small, large, catches@, catches@.len());
            match finally {
                Some(held) => {
                    stmts_grow(small, large, held.stmts@, held.stmts@.len());
                },
                None => {},
            }
        },
        _ => {},
    }
}

proof fn exprs_grow(
    small: ScanView,
    large: ScanView,
    list: Seq<Expr>,
    count: nat,
)
    requires
        knows_more(small, large),
    ensures
        exprs_throw(small, list, count) ==> exprs_throw(large, list, count),
    decreases list, count,
{
    if 0 < count <= list.len() {
        let held = list[count - 1];
        exprs_grow(small, large, list, (count - 1) as nat);
        expr_grows(small, large, held);
    }
}

proof fn arguments_grow(
    small: ScanView,
    large: ScanView,
    list: Seq<Argument>,
    count: nat,
)
    requires
        knows_more(small, large),
    ensures
        arguments_throw(small, list, count) ==> arguments_throw(large, list, count),
    decreases list, count,
{
    if 0 < count <= list.len() {
        let held = list[count - 1];
        arguments_grow(small, large, list, (count - 1) as nat);
        expr_grows(small, large, held.value);
    }
}

proof fn inits_grow(
    small: ScanView,
    large: ScanView,
    list: Seq<FieldInit>,
    count: nat,
)
    requires
        knows_more(small, large),
    ensures
        inits_throw(small, list, count) ==> inits_throw(large, list, count),
    decreases list, count,
{
    if 0 < count <= list.len() {
        let held = list[count - 1];
        inits_grow(small, large, list, (count - 1) as nat);
        expr_grows(small, large, held.value);
    }
}

proof fn entries_grow(
    small: ScanView,
    large: ScanView,
    list: Seq<MapEntry>,
    count: nat,
)
    requires
        knows_more(small, large),
    ensures
        entries_throw(small, list, count) ==> entries_throw(large, list, count),
    decreases list, count,
{
    if 0 < count <= list.len() {
        let held = list[count - 1];
        entries_grow(small, large, list, (count - 1) as nat);
        match held.key {
            MapKey::Computed(key) => {
                expr_grows(small, large, key);
            },
            MapKey::Name(_) => {},
        }
        expr_grows(small, large, held.value);
    }
}

proof fn parts_grow(
    small: ScanView,
    large: ScanView,
    list: Seq<InterpolationPart>,
    count: nat,
)
    requires
        knows_more(small, large),
    ensures
        parts_throw(small, list, count) ==> parts_throw(large, list, count),
    decreases list, count,
{
    if 0 < count <= list.len() {
        let held = list[count - 1];
        parts_grow(small, large, list, (count - 1) as nat);
        match held {
            InterpolationPart::Expr(part) => {
                expr_grows(small, large, part);
            },
            InterpolationPart::Text(_) => {},
        }
    }
}

proof fn params_grow(
    small: ScanView,
    large: ScanView,
    list: Seq<Param>,
    count: nat,
)
    requires
        knows_more(small, large),
    ensures
        params_throw(small, list, count) ==> params_throw(large, list, count),
    decreases list, count,
{
    if 0 < count <= list.len() {
        let held = list[count - 1];
        params_grow(small, large, list, (count - 1) as nat);
        match held.default {
            Some(inner) => {
                expr_grows(small, large, inner);
            },
            None => {},
        }
    }
}

proof fn arms_grow(
    small: ScanView,
    large: ScanView,
    list: Seq<MatchArm>,
    count: nat,
)
    requires
        knows_more(small, large),
    ensures
        arms_throw(small, list, count) ==> arms_throw(large, list, count),
    decreases list, count,
{
    if 0 < count <= list.len() {
        let held = list[count - 1];
        arms_grow(small, large, list, (count - 1) as nat);
        match held.guard {
            Some(inner) => {
                expr_grows(small, large, inner);
            },
            None => {},
        }
        match held.body {
            ArmBody::Block(body) => {
                stmts_grow(small, large, body.stmts@, body.stmts@.len());
            },
            ArmBody::Expr(value) => {
                expr_grows(small, large, value);
            },
        }
    }
}

proof fn values_grow(
    small: ScanView,
    large: ScanView,
    list: Seq<IfBranch>,
    count: nat,
)
    requires
        knows_more(small, large),
    ensures
        values_throw(small, list, count) ==> values_throw(large, list, count),
    decreases list, count,
{
    if 0 < count <= list.len() {
        let held = list[count - 1];
        values_grow(small, large, list, (count - 1) as nat);
        expr_grows(small, large, held.condition);
        expr_grows(small, large, held.value);
    }
}

proof fn stmts_grow(
    small: ScanView,
    large: ScanView,
    list: Seq<Stmt>,
    count: nat,
)
    requires
        knows_more(small, large),
    ensures
        stmts_throw(small, list, count) ==> stmts_throw(large, list, count),
    decreases list, count,
{
    if 0 < count <= list.len() {
        let held = list[count - 1];
        stmts_grow(small, large, list, (count - 1) as nat);
        stmt_grows(small, large, held);
    }
}

proof fn branches_grow(
    small: ScanView,
    large: ScanView,
    list: Seq<Branch>,
    count: nat,
)
    requires
        knows_more(small, large),
    ensures
        branches_throw(small, list, count) ==> branches_throw(large, list, count),
    decreases list, count,
{
    if 0 < count <= list.len() {
        let held = list[count - 1];
        branches_grow(small, large, list, (count - 1) as nat);
        expr_grows(small, large, held.condition);
        stmts_grow(small, large, held.body.stmts@, held.body.stmts@.len());
    }
}

proof fn catches_grow(
    small: ScanView,
    large: ScanView,
    list: Seq<CatchClause>,
    count: nat,
)
    requires
        knows_more(small, large),
    ensures
        catches_throw(small, list, count) ==> catches_throw(large, list, count),
    decreases list, count,
{
    if 0 < count <= list.len() {
        let held = list[count - 1];
        catches_grow(small, large, list, (count - 1) as nat);
        stmts_grow(small, large, held.body.stmts@, held.body.stmts@.len());
    }
}

/// Whether every declaration whose body can throw, once those in `throwing` do, is
/// one of them.
pub open spec fn closed_under_calls(
    bodies: Seq<(Span, Block)>,
    facts: Facts,
    interfaces: Seq<InterfaceName>,
    throwing: Seq<Span>,
) -> bool {
    forall|i: int|
        0 <= i < bodies.len() && stmts_throw(
            ScanView { facts, throwing, interfaces },
            (#[trigger] bodies[i]).1.stmts@,
            bodies[i].1.stmts@.len(),
        ) ==> throwing.contains(bodies[i].0)
}

proof fn nothing_found_is_closed(
    bodies: Seq<(Span, Block)>,
    scan: ScanView,
    count: nat,
)
    requires
        count <= bodies.len(),
        found_throwing(bodies, scan, count).len() == 0,
    ensures
        forall|i: int|
            0 <= i < count && stmts_throw(
                scan,
                (#[trigger] bodies[i]).1.stmts@,
                bodies[i].1.stmts@.len(),
            ) ==> scan.throwing.contains(bodies[i].0),
    decreases count,
{
    if count > 0 {
        nothing_found_is_closed(bodies, scan, (count - 1) as nat);
    }
}

proof fn none_unknown(bodies: Seq<(Span, Block)>, throwing: Seq<Span>, count: nat)
    requires
        count <= bodies.len(),
        unknown(bodies, throwing, count) == 0,
    ensures
        forall|i: int| 0 <= i < count ==> throwing.contains((#[trigger] bodies[i]).0),
    decreases count,
{
    if count > 0 {
        none_unknown(bodies, throwing, (count - 1) as nat);
    }
}

proof fn rounds_settle(
    bodies: Seq<(Span, Block)>,
    facts: Facts,
    interfaces: Seq<InterfaceName>,
    rounds: nat,
)
    ensures
        ({
            let throwing = throwing_after(bodies, facts, interfaces, rounds);
            let scan = ScanView { facts, throwing, interfaces };
            ||| found_throwing(bodies, scan, bodies.len()).len() == 0
            ||| rounds + unknown(bodies, throwing, bodies.len()) <= bodies.len()
        }),
    decreases rounds,
{
    if rounds == 0 {
        few_unknown(bodies, Seq::empty(), bodies.len());
    } else {
        let fewer = (rounds - 1) as nat;
        rounds_settle(bodies, facts, interfaces, fewer);
        let throwing = throwing_after(bodies, facts, interfaces, fewer);
        let scan = ScanView { facts, throwing, interfaces };
        let found = found_throwing(bodies, scan, bodies.len());
        if found.len() == 0 {
            settled_stays(bodies, facts, interfaces, fewer, rounds);
        } else {
            found_are_new(bodies, scan, bodies.len());
            fewer_unknown(bodies, throwing, found, bodies.len());
        }
    }
}

proof fn found_are_among(
    bodies: Seq<(Span, Block)>,
    scan: ScanView,
    other: Seq<Span>,
    count: nat,
)
    requires
        count <= bodies.len(),
        knows_more(scan, ScanView { throwing: other, ..scan }),
        closed_under_calls(bodies, scan.facts, scan.interfaces, other),
    ensures
        forall|span: Span| #[trigger]
            found_throwing(bodies, scan, count).contains(span) ==> other.contains(span),
    decreases count,
{
    if count > 0 {
        found_are_among(bodies, scan, other, (count - 1) as nat);
        let before = found_throwing(bodies, scan, (count - 1) as nat);
        let now = found_throwing(bodies, scan, count);
        let body = bodies[count - 1].1;
        let large = ScanView { throwing: other, ..scan };
        stmts_grow(scan, large, body.stmts@, body.stmts@.len());
        assert(large == ScanView {
            facts: scan.facts,
            throwing: other,
            interfaces: scan.interfaces,
        });
        assert forall|span: Span| #[trigger] now.contains(span) implies other.contains(span) by {
            let k = now.index_of(span);
            if k < before.len() {
                assert(before[k] == span);
                assert(before.contains(span));
            }
        }
    }
}

proof fn rounds_stay_among(
    bodies: Seq<(Span, Block)>,
    facts: Facts,
    interfaces: Seq<InterfaceName>,
    other: Seq<Span>,
    rounds: nat,
)
    requires
        closed_under_calls(bodies, facts, interfaces, other),
    ensures
        forall|span: Span| #[trigger]
            throwing_after(bodies, facts, interfaces, rounds).contains(span) ==> other.contains(
                span,
            ),
    decreases rounds,
{
    if rounds > 0 {
        let fewer = (rounds - 1) as nat;
        rounds_stay_among(bodies, facts, interfaces, other, fewer);
        let throwing = throwing_after(bodies, facts, interfaces, fewer);
        let scan = ScanView { facts, throwing, interfaces };
        found_are_among(bodies, scan, other, bodies.len());
        let found = found_throwing(bodies, scan, bodies.len());
        let now = throwing_after(bodies, facts, interfaces, rounds);
        assert forall|span: Span| #[trigger] now.contains(span) implies other.contains(span) by {
            let k = now.index_of(span);
            if k < throwing.len() {
                assert(throwing[k] == span);
                assert(throwing.contains(span));
            } else {
                assert(found[k - throwing.len()] == span);
                assert(found.contains(span));
            }
        }
    }
}

/// The declarations an exception can escape are closed under calls: whichever body
/// can throw, its declaration is one of them.
pub proof fn escaping_is_closed(
    bodies: Seq<(Span, Block)>,
    facts: Facts,
    interfaces: Seq<InterfaceName>,
)
    ensures
        closed_under_calls(
            bodies,
            facts,
            interfaces,
            escaping_view(bodies, facts, interfaces),
        ),
{
    let throwing = escaping_view(bodies, facts, interfaces);
    let scan = ScanView { facts, throwing, interfaces };
    rounds_settle(bodies, facts, interfaces, bodies.len());
    if found_throwing(bodies, scan, bodies.len()).len() == 0 {
        nothing_found_is_closed(bodies, scan, bodies.len());
    } else {
        none_unknown(bodies, throwing, bodies.len());
    }
}

/// They are the fewest that are: every set of declarations that is closed under
/// calls has all of them. So calling into itself alone makes nothing throw.
pub proof fn escaping_is_the_least(
    bodies: Seq<(Span, Block)>,
    facts: Facts,
    interfaces: Seq<InterfaceName>,
    other: Seq<Span>,
)
    requires
        closed_under_calls(bodies, facts, interfaces, other),
    ensures
        forall|span: Span| #[trigger]
            escaping_view(bodies, facts, interfaces).contains(span) ==> other.contains(span),
{
    rounds_stay_among(bodies, facts, interfaces, other, bodies.len());
}

/// The order the bodies are listed in does not matter, nor how often one is.
pub proof fn escaping_ignores_order(
    bodies: Seq<(Span, Block)>,
    other: Seq<(Span, Block)>,
    facts: Facts,
    interfaces: Seq<InterfaceName>,
)
    requires
        forall|held: (Span, Block)| #[trigger] bodies.contains(held) <==> other.contains(held),
    ensures
        forall|span: Span| #[trigger]
            escaping_view(bodies, facts, interfaces).contains(span) <==> escaping_view(
                other,
                facts,
                interfaces,
            ).contains(span),
{
    closed_for_the_same(bodies, other, facts, interfaces);
    closed_for_the_same(other, bodies, facts, interfaces);
    let first = escaping_view(bodies, facts, interfaces);
    let second = escaping_view(other, facts, interfaces);
    escaping_is_the_least(bodies, facts, interfaces, second);
    escaping_is_the_least(other, facts, interfaces, first);
}

proof fn closed_for_the_same(
    bodies: Seq<(Span, Block)>,
    other: Seq<(Span, Block)>,
    facts: Facts,
    interfaces: Seq<InterfaceName>,
)
    requires
        forall|held: (Span, Block)| #[trigger] bodies.contains(held) <==> other.contains(held),
    ensures
        closed_under_calls(bodies, facts, interfaces, escaping_view(other, facts, interfaces)),
{
    escaping_is_closed(other, facts, interfaces);
    let throwing = escaping_view(other, facts, interfaces);
    assert forall|i: int|
        0 <= i < bodies.len() && stmts_throw(
            ScanView { facts, throwing, interfaces },
            (#[trigger] bodies[i]).1.stmts@,
            bodies[i].1.stmts@.len(),
        ) implies throwing.contains(bodies[i].0) by {
        assert(bodies.contains(bodies[i]));
        let k = other.index_of(bodies[i]);
        assert(other[k] == bodies[i]);
    }
}

/// The declarations an exception can escape, by the span of each: those that
/// throw after as many rounds as it takes for a round to add nothing.
pub fn escaping(
    bodies: &Vec<Written>,
    facts: &Facts,
    interfaces: &Vec<InterfaceName>,
) -> (throwing: Vec<Span>)
    ensures
        throwing@ == escaping_view(written_views(bodies@), *facts, interfaces@),
        found_throwing(
            written_views(bodies@),
            ScanView { facts: *facts, throwing: throwing@, interfaces: interfaces@ },
            bodies@.len(),
        ).len() == 0,
{
    let ghost all = written_views(bodies@);
    let mut throwing: Vec<Span> = Vec::new();
    let ghost mut rounds: nat = 0;
    assert(throwing@ =~= Seq::empty());
    let mut growing = true;
    proof {
        few_unknown(all, throwing@, all.len());
    }
    while growing
        invariant
            all == written_views(bodies@),
            rounds + unknown(all, throwing@, all.len()) <= all.len(),
            throwing@ == throwing_after(all, *facts, interfaces@, rounds),
            !growing ==> found_throwing(
                all,
                ScanView { facts: *facts, throwing: throwing@, interfaces: interfaces@ },
                all.len(),
            ).len() == 0,
        decreases unknown(all, throwing@, all.len()), (if growing {
            1int
        } else {
            0int
        }),
    {
        let mut found: Vec<Span> = Vec::new();
        let ghost known = ScanView {
            facts: *facts,
            throwing: throwing@,
            interfaces: interfaces@,
        };
        {
            let scan = Scan { facts, throwing: &throwing, interfaces };
            let mut i: usize = 0;
            assert(found@ =~= Seq::empty());
            while i < bodies.len()
                invariant
                    i <= bodies.len(),
                    all == written_views(bodies@),
                    scan@ == known,
                    scan.throwing@ == throwing@,
                    found@ == found_throwing(all, known, i as nat),
                decreases bodies.len() - i,
            {
                assert(all[i as int] == (bodies@[i as int].span, *bodies@[i as int].body));
                if !contains_span(&throwing, bodies[i].span) && scan_stmts(
                    &scan,
                    &bodies[i].body.stmts,
                ) {
                    found.push(bodies[i].span);
                }
                i += 1;
            }
        }
        if found.len() == 0 {
            growing = false;
        } else {
            proof {
                found_are_new(all, known, all.len());
                fewer_unknown(all, throwing@, found@, all.len());
                rounds = rounds + 1;
            }
            let ghost before = throwing@;
            let ghost added = found@;
            throwing.append(&mut found);
            assert(throwing@ =~= before + added);
        }
    }
    proof {
        settled_stays(all, *facts, interfaces@, rounds, all.len());
    }
    throwing
}

} // verus!
