//! The names a body mentions and the names it writes.

use vstd::prelude::*;

use crate::ast::{
    ArmBody, Argument, Block, Branch, CatchClause, Expr, ExprKind, FieldInit, FunctionBody,
    IfBranch, InterpolationPart, MapEntry, MapKey, MatchArm, Param, Stmt, StmtKind,
};
use crate::text::{is_named, names, same_text};

verus! {

/// Which names are looked for.
#[derive(Debug, Clone, Copy, PartialEq, Eq, Structural)]
pub enum Seeking {
    /// Those that are read.
    Mentioned,
    /// Those that are assigned to.
    Assigned,
    /// Those that a closure mentions.
    Captured,
}

/// The names an expression holds, in the order they are written, added to
/// `out`. A closure
/// inside a closure reaches the outer function through the one around it, so
/// its names count too.
pub open spec fn in_expr(out: Seq<Seq<char>>, expr: Expr, seeking: Seeking) -> Seq<Seq<char>>
    decreases expr, 0nat,
{
    in_kind(out, expr.kind, seeking)
}

/// The names an expression of some kind holds.
pub open spec fn in_kind(out: Seq<Seq<char>>, kind: ExprKind, seeking: Seeking) -> Seq<Seq<char>>
    decreases kind, 0nat,
{
    match kind {
        ExprKind::Name(name) => if seeking == Seeking::Mentioned {
            out.push(name@)
        } else {
            out
        },
        ExprKind::Unary { op, operand } => {
            in_expr(out, *operand, seeking)
        },
        ExprKind::Binary { op, op_span, left, right } => {
            let out = in_expr(out, *left, seeking);
            in_expr(out, *right, seeking)
        },
        ExprKind::Range { start, end, inclusive } => {
            let out = (match start { Some(held) => in_expr(out, *held, seeking), None => out });
            (match end { Some(held) => in_expr(out, *held, seeking), None => out })
        },
        ExprKind::Call { callee, method, args } => {
            let out = in_expr(out, *callee, seeking);
            in_arguments(out, args@, seeking, args@.len())
        },
        ExprKind::Field { receiver, name, optional } => {
            in_expr(out, *receiver, seeking)
        },
        ExprKind::Index { receiver, index, optional } => {
            let out = in_expr(out, *receiver, seeking);
            in_expr(out, *index, seeking)
        },
        ExprKind::Try(inner) => {
            in_expr(out, *inner, seeking)
        },
        ExprKind::Await(inner) => {
            in_expr(out, *inner, seeking)
        },
        ExprKind::AddressOf { mutable, operand } => {
            in_expr(out, *operand, seeking)
        },
        ExprKind::Cast { value } => {
            in_expr(out, *value, seeking)
        },
        ExprKind::TypeTest { value } => {
            in_expr(out, *value, seeking)
        },
        ExprKind::Tuple(members) => {
            in_exprs(out, members@, seeking, members@.len())
        },
        ExprKind::List(members) => {
            in_exprs(out, members@, seeking, members@.len())
        },
        ExprKind::SetOf(members) => {
            in_exprs(out, members@, seeking, members@.len())
        },
        ExprKind::Record { path, fields } => {
            in_inits(out, fields@, seeking, fields@.len())
        },
        ExprKind::MapOf(entries) => {
            in_entries(out, entries@, seeking, entries@.len())
        },
        ExprKind::Interpolation(parts) => {
            in_parts(out, parts@, seeking, parts@.len())
        },
        ExprKind::Function { asynchronous, params, body } => {
            let out = (if seeking == Seeking::Captured { in_body(out, *body, Seeking::Mentioned) } else { out });
            let out = in_params(out, params@, seeking, params@.len());
            in_body(out, *body, seeking)
        },
        ExprKind::Match { scrutinee, arms } => {
            let out = in_expr(out, *scrutinee, seeking);
            in_arms(out, arms@, seeking, arms@.len())
        },
        ExprKind::If { branches, otherwise } => {
            let out = in_values(out, branches@, seeking, branches@.len());
            in_expr(out, *otherwise, seeking)
        },
        _ => out,
    }
}

/// The names a closure holds.
pub open spec fn in_body(out: Seq<Seq<char>>, body: FunctionBody, seeking: Seeking) -> Seq<Seq<char>>
    decreases body, 0nat,
{
    match body {
        FunctionBody::Block(held) => in_stmts(out, held.stmts@, seeking, held.stmts@.len()),
        FunctionBody::Expr(value) => in_expr(out, value, seeking),
    }
}

/// The name a statement assigns to, where that is what is looked for.
pub open spec fn assigned_to(out: Seq<Seq<char>>, target: Expr, seeking: Seeking) -> Seq<Seq<char>> {
    match target.kind {
        ExprKind::Name(name) => if seeking == Seeking::Assigned {
            out.push(name@)
        } else {
            out
        },
        _ => out,
    }
}

/// The names a statement holds.
pub open spec fn in_stmt(out: Seq<Seq<char>>, stmt: Stmt, seeking: Seeking) -> Seq<Seq<char>>
    decreases stmt, 0nat,
{
    match stmt.kind {
        StmtKind::Local { binding, value } => {
            (match value { Some(inner) => in_expr(out, inner, seeking), None => out })
        },
        StmtKind::Const { binding, value } => {
            in_expr(out, value, seeking)
        },
        StmtKind::Assign { target, op, value } => {
            let out = assigned_to(out, target, seeking);
            let out = in_expr(out, target, seeking);
            in_expr(out, value, seeking)
        },
        StmtKind::If { branches, otherwise } => {
            let out = in_branches(out, branches@, seeking, branches@.len());
            (match otherwise { Some(held) => in_stmts(out, held.stmts@, seeking, held.stmts@.len()), None => out })
        },
        StmtKind::While { label, condition, body } => {
            let out = in_expr(out, condition, seeking);
            in_stmts(out, body.stmts@, seeking, body.stmts@.len())
        },
        StmtKind::Repeat { label, body, until } => {
            let out = in_stmts(out, body.stmts@, seeking, body.stmts@.len());
            in_expr(out, until, seeking)
        },
        StmtKind::For { label, bindings, iterable, body } => {
            let out = in_expr(out, iterable, seeking);
            in_stmts(out, body.stmts@, seeking, body.stmts@.len())
        },
        StmtKind::Unsafe(body) => {
            in_stmts(out, body.stmts@, seeking, body.stmts@.len())
        },
        StmtKind::Defer(value) => {
            in_expr(out, value, seeking)
        },
        StmtKind::Expr(value) => {
            in_expr(out, value, seeking)
        },
        StmtKind::Match { scrutinee, arms } => {
            let out = in_expr(out, scrutinee, seeking);
            in_arms(out, arms@, seeking, arms@.len())
        },
        StmtKind::Return(value) => {
            (match value { Some(inner) => in_expr(out, inner, seeking), None => out })
        },
        StmtKind::Throw(value) => {
            in_expr(out, value, seeking)
        },
        StmtKind::Try { body, catches, finally } => {
            let out = in_stmts(out, body.stmts@, seeking, body.stmts@.len());
            let out = in_catches(out, catches@, seeking, catches@.len());
            (match finally { Some(held) => in_stmts(out, held.stmts@, seeking, held.stmts@.len()), None => out })
        },
        _ => out,
    }
}

/// The names the first `count` of these hold, added to `out`.
pub open spec fn in_exprs(
    out: Seq<Seq<char>>,
    list: Seq<Expr>,
    seeking: Seeking,
    count: nat,
) -> Seq<Seq<char>>
    decreases list, count,
{
    if count == 0 || count > list.len() {
        out
    } else {
        let held = list[count - 1];
        let out = in_exprs(out, list, seeking, (count - 1) as nat);
        {
            in_expr(out, held, seeking)
        }
    }
}

/// The names the first `count` of these hold, added to `out`.
pub open spec fn in_arguments(
    out: Seq<Seq<char>>,
    list: Seq<Argument>,
    seeking: Seeking,
    count: nat,
) -> Seq<Seq<char>>
    decreases list, count,
{
    if count == 0 || count > list.len() {
        out
    } else {
        let held = list[count - 1];
        let out = in_arguments(out, list, seeking, (count - 1) as nat);
        {
            in_expr(out, held.value, seeking)
        }
    }
}

/// The names the first `count` of these hold, added to `out`.
pub open spec fn in_inits(
    out: Seq<Seq<char>>,
    list: Seq<FieldInit>,
    seeking: Seeking,
    count: nat,
) -> Seq<Seq<char>>
    decreases list, count,
{
    if count == 0 || count > list.len() {
        out
    } else {
        let held = list[count - 1];
        let out = in_inits(out, list, seeking, (count - 1) as nat);
        {
            in_expr(out, held.value, seeking)
        }
    }
}

/// The names the first `count` of these hold, added to `out`.
pub open spec fn in_entries(
    out: Seq<Seq<char>>,
    list: Seq<MapEntry>,
    seeking: Seeking,
    count: nat,
) -> Seq<Seq<char>>
    decreases list, count,
{
    if count == 0 || count > list.len() {
        out
    } else {
        let held = list[count - 1];
        let out = in_entries(out, list, seeking, (count - 1) as nat);
        {
            let out = (match held.key { MapKey::Computed(key) => in_expr(out, key, seeking), MapKey::Name(_) => out });
            in_expr(out, held.value, seeking)
        }
    }
}

/// The names the first `count` of these hold, added to `out`.
pub open spec fn in_parts(
    out: Seq<Seq<char>>,
    list: Seq<InterpolationPart>,
    seeking: Seeking,
    count: nat,
) -> Seq<Seq<char>>
    decreases list, count,
{
    if count == 0 || count > list.len() {
        out
    } else {
        let held = list[count - 1];
        let out = in_parts(out, list, seeking, (count - 1) as nat);
        {
            (match held { InterpolationPart::Expr(part) => in_expr(out, part, seeking), InterpolationPart::Text(_) => out })
        }
    }
}

/// The names the first `count` of these hold, added to `out`.
pub open spec fn in_params(
    out: Seq<Seq<char>>,
    list: Seq<Param>,
    seeking: Seeking,
    count: nat,
) -> Seq<Seq<char>>
    decreases list, count,
{
    if count == 0 || count > list.len() {
        out
    } else {
        let held = list[count - 1];
        let out = in_params(out, list, seeking, (count - 1) as nat);
        {
            (match held.default { Some(inner) => in_expr(out, inner, seeking), None => out })
        }
    }
}

/// The names the first `count` of these hold, added to `out`.
pub open spec fn in_arms(
    out: Seq<Seq<char>>,
    list: Seq<MatchArm>,
    seeking: Seeking,
    count: nat,
) -> Seq<Seq<char>>
    decreases list, count,
{
    if count == 0 || count > list.len() {
        out
    } else {
        let held = list[count - 1];
        let out = in_arms(out, list, seeking, (count - 1) as nat);
        {
            let out = (match held.guard { Some(inner) => in_expr(out, inner, seeking), None => out });
            (match held.body { ArmBody::Block(body) => in_stmts(out, body.stmts@, seeking, body.stmts@.len()), ArmBody::Expr(value) => in_expr(out, value, seeking) })
        }
    }
}

/// The names the first `count` of these hold, added to `out`.
pub open spec fn in_values(
    out: Seq<Seq<char>>,
    list: Seq<IfBranch>,
    seeking: Seeking,
    count: nat,
) -> Seq<Seq<char>>
    decreases list, count,
{
    if count == 0 || count > list.len() {
        out
    } else {
        let held = list[count - 1];
        let out = in_values(out, list, seeking, (count - 1) as nat);
        {
            let out = in_expr(out, held.condition, seeking);
            in_expr(out, held.value, seeking)
        }
    }
}

/// The names the first `count` of these hold, added to `out`.
pub open spec fn in_stmts(
    out: Seq<Seq<char>>,
    list: Seq<Stmt>,
    seeking: Seeking,
    count: nat,
) -> Seq<Seq<char>>
    decreases list, count,
{
    if count == 0 || count > list.len() {
        out
    } else {
        let held = list[count - 1];
        let out = in_stmts(out, list, seeking, (count - 1) as nat);
        {
            in_stmt(out, held, seeking)
        }
    }
}

/// The names the first `count` of these hold, added to `out`.
pub open spec fn in_branches(
    out: Seq<Seq<char>>,
    list: Seq<Branch>,
    seeking: Seeking,
    count: nat,
) -> Seq<Seq<char>>
    decreases list, count,
{
    if count == 0 || count > list.len() {
        out
    } else {
        let held = list[count - 1];
        let out = in_branches(out, list, seeking, (count - 1) as nat);
        {
            let out = in_expr(out, held.condition, seeking);
            in_stmts(out, held.body.stmts@, seeking, held.body.stmts@.len())
        }
    }
}

/// The names the first `count` of these hold, added to `out`.
pub open spec fn in_catches(
    out: Seq<Seq<char>>,
    list: Seq<CatchClause>,
    seeking: Seeking,
    count: nat,
) -> Seq<Seq<char>>
    decreases list, count,
{
    if count == 0 || count > list.len() {
        out
    } else {
        let held = list[count - 1];
        let out = in_catches(out, list, seeking, (count - 1) as nat);
        {
            in_stmts(out, held.body.stmts@, seeking, held.body.stmts@.len())
        }
    }
}

/// The names a block holds.
pub open spec fn in_block_view(block: Block, seeking: Seeking) -> Seq<Seq<char>> {
    in_stmts(Seq::empty(), block.stmts@, seeking, block.stmts@.len())
}

fn push_name(out: &mut Vec<String>, name: &String)
    ensures
        names(final(out)@) == names(old(out)@).push(name@),
{
    let ghost before = out@;
    out.push(name.clone());
    assert(names(out@) =~= names(before).push(name@));
}

fn walk_expr(expr: &Expr, seeking: Seeking, out: &mut Vec<String>)
    ensures
        names(final(out)@) == in_expr(names(old(out)@), *expr, seeking),
    decreases *expr, 0nat,
{
    let ghost had = names(out@);
    match &expr.kind {
        ExprKind::Name(name) => {
            if seeking == Seeking::Mentioned {
                push_name(out, name);
            }
        },
        ExprKind::Unary { op, operand } => {
            walk_expr(operand, seeking, out);
        },
        ExprKind::Binary { op, op_span, left, right } => {
            walk_expr(left, seeking, out);
            walk_expr(right, seeking, out);
        },
        ExprKind::Range { start, end, inclusive } => {
            if let Some(held) = start {
                walk_expr(held, seeking, out);
            }
            if let Some(held) = end {
                walk_expr(held, seeking, out);
            }
        },
        ExprKind::Call { callee, method, args } => {
            walk_expr(callee, seeking, out);
            walk_arguments(args, seeking, out);
        },
        ExprKind::Field { receiver, name, optional } => {
            walk_expr(receiver, seeking, out);
        },
        ExprKind::Index { receiver, index, optional } => {
            walk_expr(receiver, seeking, out);
            walk_expr(index, seeking, out);
        },
        ExprKind::Try(inner) => {
            walk_expr(inner, seeking, out);
        },
        ExprKind::Await(inner) => {
            walk_expr(inner, seeking, out);
        },
        ExprKind::AddressOf { mutable, operand } => {
            walk_expr(operand, seeking, out);
        },
        ExprKind::Cast { value } => {
            walk_expr(value, seeking, out);
        },
        ExprKind::TypeTest { value } => {
            walk_expr(value, seeking, out);
        },
        ExprKind::Tuple(members) => {
            walk_exprs(members, seeking, out);
        },
        ExprKind::List(members) => {
            walk_exprs(members, seeking, out);
        },
        ExprKind::SetOf(members) => {
            walk_exprs(members, seeking, out);
        },
        ExprKind::Record { path, fields } => {
            walk_inits(fields, seeking, out);
        },
        ExprKind::MapOf(entries) => {
            walk_entries(entries, seeking, out);
        },
        ExprKind::Interpolation(parts) => {
            walk_parts(parts, seeking, out);
        },
        ExprKind::Function { asynchronous, params, body } => {
            if seeking == Seeking::Captured {
                walk_body(body, Seeking::Mentioned, out);
            }
            walk_params(params, seeking, out);
            walk_body(body, seeking, out);
        },
        ExprKind::Match { scrutinee, arms } => {
            walk_expr(scrutinee, seeking, out);
            walk_arms(arms, seeking, out);
        },
        ExprKind::If { branches, otherwise } => {
            walk_values(branches, seeking, out);
            walk_expr(otherwise, seeking, out);
        },
        _ => {},
    }
}

fn note_assigned(target: &Expr, seeking: Seeking, out: &mut Vec<String>)
    ensures
        names(final(out)@) == assigned_to(names(old(out)@), *target, seeking),
{
    match &target.kind {
        ExprKind::Name(name) => {
            if seeking == Seeking::Assigned {
                push_name(out, name);
            }
        },
        _ => {},
    }
}

fn walk_body(body: &FunctionBody, seeking: Seeking, out: &mut Vec<String>)
    ensures
        names(final(out)@) == in_body(names(old(out)@), *body, seeking),
    decreases *body, 0nat,
{
    match body {
        FunctionBody::Block(held) => {
            walk_stmts(&held.stmts, seeking, out);
        },
        FunctionBody::Expr(value) => {
            walk_expr(value, seeking, out);
        },
    }
}

fn walk_stmt(stmt: &Stmt, seeking: Seeking, out: &mut Vec<String>)
    ensures
        names(final(out)@) == in_stmt(names(old(out)@), *stmt, seeking),
    decreases *stmt, 0nat,
{
    let ghost had = names(out@);
    match &stmt.kind {
        StmtKind::Local { binding, value } => {
            if let Some(inner) = value {
                walk_expr(inner, seeking, out);
            }
        },
        StmtKind::Const { binding, value } => {
            walk_expr(value, seeking, out);
        },
        StmtKind::Assign { target, op, value } => {
            note_assigned(target, seeking, out);
            walk_expr(target, seeking, out);
            walk_expr(value, seeking, out);
        },
        StmtKind::If { branches, otherwise } => {
            walk_branches(branches, seeking, out);
            if let Some(held) = otherwise {
                walk_stmts(&held.stmts, seeking, out);
            }
        },
        StmtKind::While { label, condition, body } => {
            walk_expr(condition, seeking, out);
            walk_stmts(&body.stmts, seeking, out);
        },
        StmtKind::Repeat { label, body, until } => {
            walk_stmts(&body.stmts, seeking, out);
            walk_expr(until, seeking, out);
        },
        StmtKind::For { label, bindings, iterable, body } => {
            walk_expr(iterable, seeking, out);
            walk_stmts(&body.stmts, seeking, out);
        },
        StmtKind::Unsafe(body) => {
            walk_stmts(&body.stmts, seeking, out);
        },
        StmtKind::Defer(value) => {
            walk_expr(value, seeking, out);
        },
        StmtKind::Expr(value) => {
            walk_expr(value, seeking, out);
        },
        StmtKind::Match { scrutinee, arms } => {
            walk_expr(scrutinee, seeking, out);
            walk_arms(arms, seeking, out);
        },
        StmtKind::Return(value) => {
            if let Some(inner) = value {
                walk_expr(inner, seeking, out);
            }
        },
        StmtKind::Throw(value) => {
            walk_expr(value, seeking, out);
        },
        StmtKind::Try { body, catches, finally } => {
            walk_stmts(&body.stmts, seeking, out);
            walk_catches(catches, seeking, out);
            if let Some(held) = finally {
                walk_stmts(&held.stmts, seeking, out);
            }
        },
        _ => {},
    }
}

fn walk_exprs(list: &Vec<Expr>, seeking: Seeking, out: &mut Vec<String>)
    ensures
        names(final(out)@) == in_exprs(names(old(out)@), list@, seeking, list@.len()),
    decreases list@, list@.len(),
{
    let ghost had = names(out@);
    let mut i: usize = 0;
    while i < list.len()
        invariant
            i <= list.len(),
            names(out@) == in_exprs(had, list@, seeking, i as nat),
        decreases list.len() - i,
    {
        let held = &list[i];
        assert(decreases_to!(list@ => list@[i as int]));
        walk_expr(held, seeking, out);
        i += 1;
    }
}

fn walk_arguments(list: &Vec<Argument>, seeking: Seeking, out: &mut Vec<String>)
    ensures
        names(final(out)@) == in_arguments(names(old(out)@), list@, seeking, list@.len()),
    decreases list@, list@.len(),
{
    let ghost had = names(out@);
    let mut i: usize = 0;
    while i < list.len()
        invariant
            i <= list.len(),
            names(out@) == in_arguments(had, list@, seeking, i as nat),
        decreases list.len() - i,
    {
        let held = &list[i];
        assert(decreases_to!(list@ => list@[i as int]));
        walk_expr(&held.value, seeking, out);
        i += 1;
    }
}

fn walk_inits(list: &Vec<FieldInit>, seeking: Seeking, out: &mut Vec<String>)
    ensures
        names(final(out)@) == in_inits(names(old(out)@), list@, seeking, list@.len()),
    decreases list@, list@.len(),
{
    let ghost had = names(out@);
    let mut i: usize = 0;
    while i < list.len()
        invariant
            i <= list.len(),
            names(out@) == in_inits(had, list@, seeking, i as nat),
        decreases list.len() - i,
    {
        let held = &list[i];
        assert(decreases_to!(list@ => list@[i as int]));
        walk_expr(&held.value, seeking, out);
        i += 1;
    }
}

fn walk_entries(list: &Vec<MapEntry>, seeking: Seeking, out: &mut Vec<String>)
    ensures
        names(final(out)@) == in_entries(names(old(out)@), list@, seeking, list@.len()),
    decreases list@, list@.len(),
{
    let ghost had = names(out@);
    let mut i: usize = 0;
    while i < list.len()
        invariant
            i <= list.len(),
            names(out@) == in_entries(had, list@, seeking, i as nat),
        decreases list.len() - i,
    {
        let held = &list[i];
        assert(decreases_to!(list@ => list@[i as int]));
        if let MapKey::Computed(key) = &held.key {
            walk_expr(key, seeking, out);
        }
        walk_expr(&held.value, seeking, out);
        i += 1;
    }
}

fn walk_parts(list: &Vec<InterpolationPart>, seeking: Seeking, out: &mut Vec<String>)
    ensures
        names(final(out)@) == in_parts(names(old(out)@), list@, seeking, list@.len()),
    decreases list@, list@.len(),
{
    let ghost had = names(out@);
    let mut i: usize = 0;
    while i < list.len()
        invariant
            i <= list.len(),
            names(out@) == in_parts(had, list@, seeking, i as nat),
        decreases list.len() - i,
    {
        let held = &list[i];
        assert(decreases_to!(list@ => list@[i as int]));
        if let InterpolationPart::Expr(part) = held {
            walk_expr(part, seeking, out);
        }
        i += 1;
    }
}

fn walk_params(list: &Vec<Param>, seeking: Seeking, out: &mut Vec<String>)
    ensures
        names(final(out)@) == in_params(names(old(out)@), list@, seeking, list@.len()),
    decreases list@, list@.len(),
{
    let ghost had = names(out@);
    let mut i: usize = 0;
    while i < list.len()
        invariant
            i <= list.len(),
            names(out@) == in_params(had, list@, seeking, i as nat),
        decreases list.len() - i,
    {
        let held = &list[i];
        assert(decreases_to!(list@ => list@[i as int]));
        if let Some(inner) = &held.default {
            walk_expr(inner, seeking, out);
        }
        i += 1;
    }
}

fn walk_arms(list: &Vec<MatchArm>, seeking: Seeking, out: &mut Vec<String>)
    ensures
        names(final(out)@) == in_arms(names(old(out)@), list@, seeking, list@.len()),
    decreases list@, list@.len(),
{
    let ghost had = names(out@);
    let mut i: usize = 0;
    while i < list.len()
        invariant
            i <= list.len(),
            names(out@) == in_arms(had, list@, seeking, i as nat),
        decreases list.len() - i,
    {
        let held = &list[i];
        assert(decreases_to!(list@ => list@[i as int]));
        if let Some(inner) = &held.guard {
            walk_expr(inner, seeking, out);
        }
        match &held.body {
            ArmBody::Block(body) => {
                walk_stmts(&body.stmts, seeking, out);
            },
            ArmBody::Expr(value) => {
                walk_expr(value, seeking, out);
            },
        }
        i += 1;
    }
}

fn walk_values(list: &Vec<IfBranch>, seeking: Seeking, out: &mut Vec<String>)
    ensures
        names(final(out)@) == in_values(names(old(out)@), list@, seeking, list@.len()),
    decreases list@, list@.len(),
{
    let ghost had = names(out@);
    let mut i: usize = 0;
    while i < list.len()
        invariant
            i <= list.len(),
            names(out@) == in_values(had, list@, seeking, i as nat),
        decreases list.len() - i,
    {
        let held = &list[i];
        assert(decreases_to!(list@ => list@[i as int]));
        walk_expr(&held.condition, seeking, out);
        walk_expr(&held.value, seeking, out);
        i += 1;
    }
}

fn walk_stmts(list: &Vec<Stmt>, seeking: Seeking, out: &mut Vec<String>)
    ensures
        names(final(out)@) == in_stmts(names(old(out)@), list@, seeking, list@.len()),
    decreases list@, list@.len(),
{
    let ghost had = names(out@);
    let mut i: usize = 0;
    while i < list.len()
        invariant
            i <= list.len(),
            names(out@) == in_stmts(had, list@, seeking, i as nat),
        decreases list.len() - i,
    {
        let held = &list[i];
        assert(decreases_to!(list@ => list@[i as int]));
        walk_stmt(held, seeking, out);
        i += 1;
    }
}

fn walk_branches(list: &Vec<Branch>, seeking: Seeking, out: &mut Vec<String>)
    ensures
        names(final(out)@) == in_branches(names(old(out)@), list@, seeking, list@.len()),
    decreases list@, list@.len(),
{
    let ghost had = names(out@);
    let mut i: usize = 0;
    while i < list.len()
        invariant
            i <= list.len(),
            names(out@) == in_branches(had, list@, seeking, i as nat),
        decreases list.len() - i,
    {
        let held = &list[i];
        assert(decreases_to!(list@ => list@[i as int]));
        walk_expr(&held.condition, seeking, out);
        walk_stmts(&held.body.stmts, seeking, out);
        i += 1;
    }
}

fn walk_catches(list: &Vec<CatchClause>, seeking: Seeking, out: &mut Vec<String>)
    ensures
        names(final(out)@) == in_catches(names(old(out)@), list@, seeking, list@.len()),
    decreases list@, list@.len(),
{
    let ghost had = names(out@);
    let mut i: usize = 0;
    while i < list.len()
        invariant
            i <= list.len(),
            names(out@) == in_catches(had, list@, seeking, i as nat),
        decreases list.len() - i,
    {
        let held = &list[i];
        assert(decreases_to!(list@ => list@[i as int]));
        walk_stmts(&held.body.stmts, seeking, out);
        i += 1;
    }
}

/// Collects every name `block` mentions, in the order it mentions them.
pub fn in_block(block: &Block, out: &mut Vec<String>)
    ensures
        names(final(out)@) == in_stmts(
            names(old(out)@),
            block.stmts@,
            Seeking::Mentioned,
            block.stmts@.len(),
        ),
{
    walk_stmts(&block.stmts, Seeking::Mentioned, out);
}

/// Collects every name a closure body mentions, in the order it mentions them.
pub fn in_function(body: &FunctionBody, out: &mut Vec<String>)
    ensures
        names(final(out)@) == in_body(names(old(out)@), *body, Seeking::Mentioned),
{
    walk_body(body, Seeking::Mentioned, out);
}

/// The names `block` assigns to, anywhere inside it, including inside a closure
/// written in it.
pub fn assigned(block: &Block, out: &mut Vec<String>)
    ensures
        names(final(out)@) == in_stmts(
            names(old(out)@),
            block.stmts@,
            Seeking::Assigned,
            block.stmts@.len(),
        ),
{
    walk_stmts(&block.stmts, Seeking::Assigned, out);
}

/// The names a closure body assigns to, anywhere inside it.
pub fn assigned_in(body: &FunctionBody, out: &mut Vec<String>)
    ensures
        names(final(out)@) == in_body(names(old(out)@), *body, Seeking::Assigned),
{
    walk_body(body, Seeking::Assigned, out);
}

/// Whether one text comes before another in the order of their characters.
pub open spec fn comes_before(left: Seq<char>, right: Seq<char>) -> bool
    decreases left.len(),
{
    if left.len() == 0 {
        right.len() > 0
    } else if right.len() == 0 {
        false
    } else if left[0] != right[0] {
        (left[0] as u32) < (right[0] as u32)
    } else {
        comes_before(left.skip(1), right.skip(1))
    }
}

/// The names with one more, in order; as they are where it is one of them.
pub open spec fn placed(held: Seq<Seq<char>>, name: Seq<char>) -> Seq<Seq<char>>
    decreases held.len(),
{
    if held.len() == 0 {
        seq![name]
    } else if held[0] == name {
        held
    } else if comes_before(name, held[0]) {
        seq![name] + held
    } else {
        seq![held[0]] + placed(held.skip(1), name)
    }
}

/// Those of the first `count` captured names that something assigns to, in
/// order, each once.
pub open spec fn kept_shared(
    captured: Seq<Seq<char>>,
    written: Seq<Seq<char>>,
    count: nat,
) -> Seq<Seq<char>>
    decreases count,
{
    if count == 0 {
        Seq::empty()
    } else {
        let before = kept_shared(captured, written, (count - 1) as nat);
        if written.contains(captured[count - 1]) {
            placed(before, captured[count - 1])
        } else {
            before
        }
    }
}

/// The names a closure in `block` mentions that something in `block` assigns
/// to, in order, each once.
pub open spec fn shared_view(block: Block) -> Seq<Seq<char>> {
    let captured = in_block_view(block, Seeking::Captured);
    kept_shared(captured, in_block_view(block, Seeking::Assigned), captured.len())
}

proof fn placing_adds(held: Seq<Seq<char>>, name: Seq<char>, asked: Seq<char>)
    ensures
        placed(held, name).contains(asked) <==> held.contains(asked) || asked == name,
    decreases held.len(),
{
    let now = placed(held, name);
    if held.len() == 0 {
        assert(now[0] == name);
    } else if held[0] == name {
        assert(held[0] == name);
    } else if comes_before(name, held[0]) {
        assert(now[0] == name);
        if held.contains(asked) {
            assert(now[held.index_of(asked) + 1] == asked);
        }
        if now.contains(asked) && asked != name {
            assert(held[now.index_of(asked) - 1] == asked);
        }
    } else {
        let rest = held.skip(1);
        let placed_rest = placed(rest, name);
        placing_adds(rest, name, asked);
        assert(now[0] == held[0]);
        if held.contains(asked) {
            let k = held.index_of(asked);
            if k > 0 {
                assert(rest[k - 1] == asked);
                assert(now[placed_rest.index_of(asked) + 1] == asked);
            }
        }
        if asked == name {
            assert(now[placed_rest.index_of(asked) + 1] == asked);
        }
        if now.contains(asked) {
            let k = now.index_of(asked);
            if k > 0 {
                assert(placed_rest[k - 1] == asked);
                if rest.contains(asked) {
                    assert(held[rest.index_of(asked) + 1] == asked);
                }
            }
        }
    }
}

/// A name is shared exactly where a closure mentions it and something assigns to
/// it.
pub proof fn shared_names(
    captured: Seq<Seq<char>>,
    written: Seq<Seq<char>>,
    count: nat,
    name: Seq<char>,
)
    requires
        count <= captured.len(),
    ensures
        kept_shared(captured, written, count).contains(name) <==> captured.take(
            count as int,
        ).contains(name) && written.contains(name),
    decreases count,
{
    if count > 0 {
        let before = kept_shared(captured, written, (count - 1) as nat);
        let last = captured[count - 1];
        shared_names(captured, written, (count - 1) as nat, name);
        placing_adds(before, last, name);
        let taken = captured.take(count as int);
        let earlier = captured.take(count - 1);
        assert(taken.contains(name) <==> earlier.contains(name) || name == last) by {
            if earlier.contains(name) {
                let k = earlier.index_of(name);
                assert(taken[k] == name);
            }
            if name == last {
                assert(taken[count - 1] == name);
            }
            if taken.contains(name) {
                let k = taken.index_of(name);
                if k < count - 1 {
                    assert(earlier[k] == name);
                }
            }
        }
    }
}

/// Whether each of the names comes before those after it.
pub open spec fn ascending(held: Seq<Seq<char>>) -> bool {
    forall|i: int, j: int|
        0 <= i < j < held.len() ==> comes_before(#[trigger] held[i], #[trigger] held[j])
}

proof fn chars_are_ordered(left: char, right: char)
    requires
        left != right,
    ensures
        (left as u32) < (right as u32) || (right as u32) < (left as u32),
{
}

proof fn order_is_total(left: Seq<char>, right: Seq<char>)
    ensures
        left == right || comes_before(left, right) || comes_before(right, left),
    decreases left.len(),
{
    if left.len() > 0 && right.len() > 0 {
        if left[0] != right[0] {
            chars_are_ordered(left[0], right[0]);
        } else {
            order_is_total(left.skip(1), right.skip(1));
            if left.skip(1) == right.skip(1) {
                assert(left =~= seq![left[0]] + left.skip(1));
                assert(right =~= seq![right[0]] + right.skip(1));
            }
        }
    } else if left.len() == 0 && right.len() == 0 {
        assert(left =~= right);
    }
}

proof fn order_is_transitive(first: Seq<char>, second: Seq<char>, third: Seq<char>)
    requires
        comes_before(first, second),
        comes_before(second, third),
    ensures
        comes_before(first, third),
    decreases first.len(),
{
    if first.len() > 0 && first[0] == second[0] && second[0] == third[0] {
        order_is_transitive(first.skip(1), second.skip(1), third.skip(1));
    }
}

proof fn placing_keeps_order(held: Seq<Seq<char>>, name: Seq<char>)
    requires
        ascending(held),
    ensures
        ascending(placed(held, name)),
    decreases held.len(),
{
    let now = placed(held, name);
    if held.len() > 0 && held[0] != name {
        if comes_before(name, held[0]) {
            assert forall|i: int, j: int| 0 <= i < j < now.len() implies comes_before(
                #[trigger] now[i],
                #[trigger] now[j],
            ) by {
                assert(now[j] == held[j - 1]);
                if i > 0 {
                    assert(now[i] == held[i - 1]);
                } else if j > 1 {
                    assert(comes_before(held[0], held[j - 1]));
                    order_is_transitive(name, held[0], held[j - 1]);
                }
            }
        } else {
            let rest = held.skip(1);
            assert forall|i: int, j: int| 0 <= i < j < rest.len() implies comes_before(
                #[trigger] rest[i],
                #[trigger] rest[j],
            ) by {
                assert(comes_before(held[i + 1], held[j + 1]));
            }
            placing_keeps_order(rest, name);
            order_is_total(held[0], name);
            let more = placed(rest, name);
            assert forall|i: int, j: int| 0 <= i < j < now.len() implies comes_before(
                #[trigger] now[i],
                #[trigger] now[j],
            ) by {
                assert(now[j] == more[j - 1]);
                if i > 0 {
                    assert(now[i] == more[i - 1]);
                } else {
                    placing_adds(rest, name, more[j - 1]);
                    assert(more.contains(more[j - 1]));
                    if more[j - 1] != name {
                        let k = rest.index_of(more[j - 1]);
                        assert(rest[k] == held[k + 1]);
                        assert(comes_before(held[0], held[k + 1]));
                    }
                }
            }
        }
    }
}

proof fn kept_in_order(captured: Seq<Seq<char>>, written: Seq<Seq<char>>, count: nat)
    ensures
        ascending(kept_shared(captured, written, count)),
    decreases count,
{
    if count > 0 {
        kept_in_order(captured, written, (count - 1) as nat);
        placing_keeps_order(
            kept_shared(captured, written, (count - 1) as nat),
            captured[count - 1],
        );
    }
}

/// The shared names stand in order, each once.
pub proof fn shared_names_ascend(block: Block)
    ensures
        ascending(shared_view(block)),
{
    let captured = in_block_view(block, Seeking::Captured);
    kept_in_order(captured, in_block_view(block, Seeking::Assigned), captured.len());
}

fn is_before(left: &str, right: &str) -> (before: bool)
    ensures
        before == comes_before(left@, right@),
{
    let left_count: usize = left.unicode_len();
    let right_count: usize = right.unicode_len();
    let mut i: usize = 0;
    assert(left@.skip(0) =~= left@);
    assert(right@.skip(0) =~= right@);
    while i < left_count && i < right_count
        invariant
            i <= left_count == left@.len(),
            i <= right_count == right@.len(),
            comes_before(left@, right@) == comes_before(
                left@.skip(i as int),
                right@.skip(i as int),
            ),
        decreases left_count - i,
    {
        assert(left@.skip(i as int).skip(1) =~= left@.skip(i + 1));
        assert(right@.skip(i as int).skip(1) =~= right@.skip(i + 1));
        let first = left.get_char(i);
        let second = right.get_char(i);
        if first != second {
            return (first as u32) < (second as u32);
        }
        i += 1;
    }
    i < right_count
}

fn place(held: &Vec<String>, name: &String) -> (now: Vec<String>)
    ensures
        names(now@) == placed(names(held@), name@),
{
    let ghost all = names(held@);
    let mut now: Vec<String> = Vec::new();
    let mut i: usize = 0;
    assert(names(now@) =~= Seq::empty());
    assert(all.skip(0) =~= all);
    assert(Seq::empty() + placed(all, name@) =~= placed(all, name@));
    while i < held.len()
        invariant
            i <= held.len(),
            all == names(held@),
            placed(all, name@) == names(now@) + placed(all.skip(i as int), name@),
        decreases held.len() - i,
    {
        let ghost rest = all.skip(i as int);
        assert(rest[0] == held@[i as int]@);
        assert(rest.skip(1) =~= all.skip(i + 1));
        let ghost before = names(now@);
        if same_text(held[i].as_str(), name.as_str()) {
            push_rest(&mut now, held, i);
            return now;
        }
        if is_before(name.as_str(), held[i].as_str()) {
            push_name(&mut now, name);
            push_rest(&mut now, held, i);
            assert(names(now@) =~= before + (seq![name@] + rest));
            return now;
        }
        push_name(&mut now, &held[i]);
        assert(before + (seq![rest[0]] + placed(all.skip(i + 1), name@)) =~= names(now@) + placed(
            all.skip(i + 1),
            name@,
        ));
        i += 1;
    }
    let ghost before = names(now@);
    push_name(&mut now, name);
    assert(names(now@) =~= before + seq![name@]);
    now
}

fn push_rest(now: &mut Vec<String>, held: &Vec<String>, from: usize)
    requires
        from <= held@.len(),
    ensures
        names(final(now)@) == names(old(now)@) + names(held@).skip(from as int),
{
    let ghost had = names(now@);
    let mut i: usize = from;
    assert(had + names(held@).subrange(from as int, from as int) =~= had);
    while i < held.len()
        invariant
            from <= i <= held.len(),
            names(now@) == had + names(held@).subrange(from as int, i as int),
        decreases held.len() - i,
    {
        push_name(now, &held[i]);
        assert(names(now@) =~= had + names(held@).subrange(from as int, i + 1));
        i += 1;
    }
    assert(names(held@).subrange(from as int, held@.len() as int) =~= names(held@).skip(
        from as int,
    ));
}

/// The names a closure in `block` mentions that something in `block` assigns
/// to, inside a closure or not. Every holder of one reads and writes the same
/// cell.
pub fn shared(block: &Block) -> (found: Vec<String>)
    ensures
        names(found@) == shared_view(*block),
{
    let mut captured: Vec<String> = Vec::new();
    assert(names(captured@) =~= Seq::empty());
    walk_stmts(&block.stmts, Seeking::Captured, &mut captured);
    let ghost all = in_block_view(*block, Seeking::Captured);
    assert(names(captured@) =~= all);
    let mut written: Vec<String> = Vec::new();
    assert(names(written@) =~= Seq::empty());
    assigned(block, &mut written);
    assert(names(written@) =~= in_block_view(*block, Seeking::Assigned));
    let mut found: Vec<String> = Vec::new();
    let mut i: usize = 0;
    assert(names(found@) =~= Seq::empty());
    while i < captured.len()
        invariant
            i <= captured.len(),
            names(captured@) == all,
            names(found@) == kept_shared(all, names(written@), i as nat),
        decreases captured.len() - i,
    {
        assert(all[i as int] == captured@[i as int]@);
        if is_named(&written, captured[i].as_str()) {
            found = place(&found, &captured[i]);
        }
        i += 1;
    }
    found
}

} // verus!
