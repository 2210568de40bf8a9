//! That what lowering a body names is there: statements.

use vstd::prelude::*;

use crate::ast::BinaryOp as AstBinary;
use crate::ast::{Binding, Block, Branch, CatchClause, Expr, Stmt};
use crate::inst::Value;
use crate::program::BlockId;
use crate::span::Span;
use crate::ty::TyView;

use super::super::deeper::{Deeper, deeper};
use super::super::BodyView;
use super::calls::{call_declared_fits, call_declared_gives};
use super::iterate::for_stmt_fits;
use super::leaves::{
    add_params_fits, bind_name_fits, bind_params_fits, branch_fits, jump_to_fits, missing_fits,
    missing_gives, read_var_fits, read_var_gives, set_defs_fits, settled_fits, settled_gives,
    write_var_fits,
};
use super::{
    Thing, add_block_fits, add_block_gives, add_block_param_fits, add_block_param_gives,
    bind_value_fits, block_fits, declare_binding_fits, declared_type_fits, defer_fits,
    drop_scope_fits, emit_fits, emit_gives, emit_void_fits, expr_fits, expr_gives, fits, gap_fits,
    join_fits, open_fits, pop_handler_fits, pop_loop_fits, push_handler_fits, push_loop_fits,
    recorded_fits, restore_fits, stmts_fits, sturdy, switch_to_fits, terminate_fits, things,
};
use super::patterns::match_stmt_fits;
use super::scopes::{
    close_fits, leave_fits, raise_fits, ret_fits, stored_fits, stored_gives, unwind_fits,
};

verus! {

pub(crate) broadcast proof fn block_within_fits<'a>(
    b: BodyView<'a>,
    block: Block,
    deeper: Deeper<'a>,
    thing: Thing,
)
    requires
        fits(b, Thing::Body),
        sturdy(deeper),
        fits(b, thing),
    ensures
        #[trigger] fits(b.block_within(block, deeper), thing),
{
    broadcast use {things, open_fits, stmts_fits, close_fits};

    reveal(BodyView::block_within);
}

pub(crate) broadcast proof fn stmts_within_fits<'a>(
    b: BodyView<'a>,
    stmts: Seq<Stmt>,
    deeper: Deeper<'a>,
    count: nat,
    thing: Thing,
)
    requires
        fits(b, Thing::Body),
        sturdy(deeper),
        count <= stmts.len(),
        fits(b, thing),
    ensures
        #[trigger] fits(b.stmts_within(stmts, deeper, count), thing),
    decreases count,
{
    broadcast use {things, stmt_fits};

    reveal(BodyView::stmts_within);
    if count > 0 {
        stmts_within_fits(b, stmts, deeper, (count - 1) as nat, Thing::Body);
        stmts_within_fits(b, stmts, deeper, (count - 1) as nat, thing);
    }
}

pub(crate) broadcast proof fn stmt_fits<'a>(
    b: BodyView<'a>,
    stmt: Stmt,
    deeper: Deeper<'a>,
    thing: Thing,
)
    requires
        fits(b, Thing::Body),
        sturdy(deeper),
        fits(b, thing),
    ensures
        #[trigger] fits(b.stmt(stmt, deeper), thing),
{
    broadcast use {
        things, local_fits, assign_fits, ret_fits, if_stmt_fits, while_stmt_fits, repeat_stmt_fits,
        for_stmt_fits, leave_fits, match_stmt_fits, defer_fits, expr_fits, expr_gives, raise_fits,
        try_stmt_fits, block_fits,
    };

    reveal(BodyView::stmt);
}

pub(crate) broadcast proof fn local_fits<'a>(
    b: BodyView<'a>,
    binding: Binding,
    value: Option<&'a Expr>,
    span: Span,
    deeper: Deeper<'a>,
    thing: Thing,
)
    requires
        fits(b, Thing::Body),
        sturdy(deeper),
        fits(b, thing),
    ensures
        #[trigger] fits(b.local(binding, value, span, deeper), thing),
{
    broadcast use {
        things, declared_type_fits, stored_fits, stored_gives, bind_value_fits,
        declare_binding_fits,
    };

    reveal(BodyView::local);
}

pub(crate) broadcast proof fn if_stmt_fits<'a>(
    b: BodyView<'a>,
    branches: Seq<Branch>,
    otherwise: Option<Block>,
    span: Span,
    deeper: Deeper<'a>,
    thing: Thing,
)
    requires
        fits(b, Thing::Body),
        sturdy(deeper),
        fits(b, thing),
    ensures
        #[trigger] fits(b.if_stmt(branches, otherwise, span, deeper), thing),
{
    broadcast use {
        things, add_block_fits, add_block_gives, if_branches_fits, if_branches_gives, block_fits,
        join_fits,
    };

    reveal(BodyView::if_stmt);
}

pub(crate) broadcast proof fn if_branches_fits<'a>(
    b: BodyView<'a>,
    branches: Seq<Branch>,
    span: Span,
    deeper: Deeper<'a>,
    count: nat,
    thing: Thing,
)
    requires
        fits(b, Thing::Body),
        sturdy(deeper),
        count <= branches.len(),
        fits(b, thing),
    ensures
        #[trigger] fits(b.if_branches(branches, span, deeper, count).0, thing),
    decreases count,
{
    broadcast use {
        things, expr_fits, expr_gives, add_block_fits, add_block_gives, branch_fits, switch_to_fits,
        block_fits, restore_fits,
    };

    reveal(BodyView::if_branches);
    if count > 0 {
        if_branches_fits(b, branches, span, deeper, (count - 1) as nat, Thing::Body);
        if_branches_fits(b, branches, span, deeper, (count - 1) as nat, thing);
        if_branches_gives(b, branches, span, deeper, (count - 1) as nat);
    }
}

pub(crate) broadcast proof fn if_branches_gives<'a>(
    b: BodyView<'a>,
    branches: Seq<Branch>,
    span: Span,
    deeper: Deeper<'a>,
    count: nat,
)
    requires
        fits(b, Thing::Body),
        sturdy(deeper),
        count <= branches.len(),
    ensures
        #[trigger] fits(
            b.if_branches(branches, span, deeper, count).0,
            Thing::Paths(b.if_branches(branches, span, deeper, count).1),
        ),
    decreases count,
{
    broadcast use {
        things, expr_fits, expr_gives, add_block_fits, add_block_gives, branch_fits, switch_to_fits,
        block_fits, restore_fits,
    };

    reveal(BodyView::if_branches);
    if count > 0 {
        if_branches_fits(b, branches, span, deeper, (count - 1) as nat, Thing::Body);
        if_branches_gives(b, branches, span, deeper, (count - 1) as nat);
    }
}

pub(crate) broadcast proof fn while_stmt_fits<'a>(
    b: BodyView<'a>,
    label: Option<Seq<char>>,
    condition: Expr,
    body: Block,
    span: Span,
    deeper: Deeper<'a>,
    thing: Thing,
)
    requires
        fits(b, Thing::Body),
        sturdy(deeper),
        fits(b, thing),
    ensures
        #[trigger] fits(b.while_stmt(label, condition, body, span, deeper), thing),
{
    broadcast use {
        things, add_block_fits, add_block_gives, jump_to_fits, switch_to_fits, add_params_fits,
        bind_params_fits, expr_fits, expr_gives, terminate_fits, restore_fits, push_loop_fits,
        block_fits, pop_loop_fits,
    };

    reveal(BodyView::while_stmt);
}

pub(crate) broadcast proof fn repeat_stmt_fits<'a>(
    b: BodyView<'a>,
    label: Option<Seq<char>>,
    body: Block,
    until: Expr,
    span: Span,
    deeper: Deeper<'a>,
    thing: Thing,
)
    requires
        fits(b, Thing::Body),
        sturdy(deeper),
        fits(b, thing),
    ensures
        #[trigger] fits(b.repeat_stmt(label, body, until, span, deeper), thing),
{
    broadcast use {
        things, add_block_fits, add_block_gives, jump_to_fits, add_params_fits, switch_to_fits,
        bind_params_fits, open_fits, push_loop_fits, stmts_fits, expr_fits, expr_gives, unwind_fits,
        terminate_fits, pop_loop_fits, drop_scope_fits, restore_fits,
    };

    reveal(BodyView::repeat_stmt);
}

pub(crate) broadcast proof fn try_stmt_fits<'a>(
    b: BodyView<'a>,
    body: Block,
    catches: Seq<CatchClause>,
    finally: Option<Block>,
    span: Span,
    deeper: Deeper<'a>,
    thing: Thing,
)
    requires
        fits(b, Thing::Body),
        sturdy(deeper),
        fits(b, thing),
    ensures
        #[trigger] fits(b.try_stmt(body, catches, finally, span, deeper), thing),
{
    broadcast use {
        things, add_block_fits, add_block_gives, add_block_param_fits, add_block_param_gives,
        add_params_fits, open_fits, defer_fits, push_handler_fits, block_fits, pop_handler_fits,
        switch_to_fits, restore_fits, bind_thrown_fits, catch_clauses_fits, catch_clauses_gives,
        raise_fits, join_fits, close_fits,
    };

    reveal(BodyView::try_stmt);
}

pub(crate) broadcast proof fn catch_clauses_fits<'a>(
    b: BodyView<'a>,
    thrown: Value,
    catches: Seq<CatchClause>,
    deeper: Deeper<'a>,
    count: nat,
    thing: Thing,
)
    requires
        fits(b, Thing::Body),
        sturdy(deeper),
        fits(b, Thing::Value(thrown)),
        count <= catches.len(),
        fits(b, thing),
    ensures
        #[trigger] fits(b.catch_clauses(thrown, catches, deeper, count).0, thing),
    decreases count,
{
    broadcast use {
        things, add_block_fits, add_block_gives, catch_fits, catch_gives, open_fits, bind_name_fits,
        stmts_fits, close_fits, restore_fits, switch_to_fits, terminate_fits,
    };

    reveal(BodyView::catch_clauses);
    if count > 0 {
        catch_clauses_fits(b, thrown, catches, deeper, (count - 1) as nat, Thing::Body);
        catch_clauses_fits(b, thrown, catches, deeper, (count - 1) as nat, Thing::Value(thrown));
        catch_clauses_fits(b, thrown, catches, deeper, (count - 1) as nat, thing);
        catch_clauses_gives(b, thrown, catches, deeper, (count - 1) as nat);
    }
}

pub(crate) broadcast proof fn catch_clauses_gives<'a>(
    b: BodyView<'a>,
    thrown: Value,
    catches: Seq<CatchClause>,
    deeper: Deeper<'a>,
    count: nat,
)
    requires
        fits(b, Thing::Body),
        sturdy(deeper),
        fits(b, Thing::Value(thrown)),
        count <= catches.len(),
    ensures
        #[trigger] fits(
            b.catch_clauses(thrown, catches, deeper, count).0,
            Thing::Paths(b.catch_clauses(thrown, catches, deeper, count).1),
        ),
    decreases count,
{
    broadcast use {
        things, add_block_fits, add_block_gives, catch_fits, catch_gives, open_fits, bind_name_fits,
        stmts_fits, close_fits, restore_fits, switch_to_fits, terminate_fits,
    };

    reveal(BodyView::catch_clauses);
    if count > 0 {
        catch_clauses_fits(b, thrown, catches, deeper, (count - 1) as nat, Thing::Body);
        catch_clauses_fits(b, thrown, catches, deeper, (count - 1) as nat, Thing::Value(thrown));
        catch_clauses_gives(b, thrown, catches, deeper, (count - 1) as nat);
    }
}

pub(crate) broadcast proof fn catch_fits<'a>(
    b: BodyView<'a>,
    thrown: Value,
    clause: CatchClause,
    next: BlockId,
    thing: Thing,
)
    requires
        fits(b, Thing::Body),
        fits(b, Thing::Value(thrown)),
        fits(b, Thing::Block(next)),
        fits(b, thing),
    ensures
        #[trigger] fits(b.catch(thrown, clause, next).0, thing),
{
    broadcast use {
        things, recorded_fits, emit_fits, emit_gives, add_block_fits, add_block_gives, branch_fits,
        switch_to_fits,
    };

    reveal(BodyView::catch);
}

pub(crate) broadcast proof fn catch_gives<'a>(
    b: BodyView<'a>,
    thrown: Value,
    clause: CatchClause,
    next: BlockId,
)
    requires
        fits(b, Thing::Body),
        fits(b, Thing::Value(thrown)),
        fits(b, Thing::Block(next)),
    ensures
        #[trigger] fits(
            b.catch(thrown, clause, next).0,
            Thing::Value(b.catch(thrown, clause, next).1),
        ),
{
    broadcast use {
        things, recorded_fits, emit_fits, emit_gives, add_block_fits, add_block_gives, branch_fits,
        switch_to_fits,
    };

    reveal(BodyView::catch);
}

pub(crate) broadcast proof fn bind_thrown_fits<'a>(
    b: BodyView<'a>,
    block: BlockId,
    carried: Seq<u32>,
    thing: Thing,
)
    requires
        fits(b, Thing::Body),
        fits(b, Thing::Block(block)),
        fits(b, thing),
    ensures
        #[trigger] fits(b.bind_thrown(block, carried), thing),
{
    broadcast use {things, set_defs_fits};

    reveal(BodyView::bind_thrown);
}

pub(crate) broadcast proof fn assign_fits<'a>(
    b: BodyView<'a>,
    target: Expr,
    op: Option<AstBinary>,
    value: Expr,
    span: Span,
    deeper: Deeper<'a>,
    thing: Thing,
)
    requires
        fits(b, Thing::Body),
        sturdy(deeper),
        fits(b, thing),
    ensures
        #[trigger] fits(b.assign(target, op, value, span, deeper), thing),
{
    broadcast use {
        things, gap_fits, read_var_fits, read_var_gives, written_into_fits, written_into_gives,
        write_var_fits, assign_field_fits, assign_index_fits,
    };

    reveal(BodyView::assign);
}

pub(crate) broadcast proof fn assign_field_fits<'a>(
    b: BodyView<'a>,
    receiver: Expr,
    name: Seq<char>,
    op: Option<AstBinary>,
    value: Expr,
    target: Span,
    span: Span,
    deeper: Deeper<'a>,
    thing: Thing,
)
    requires
        fits(b, Thing::Body),
        sturdy(deeper),
        fits(b, thing),
    ensures
        #[trigger] fits(b.assign_field(receiver, name, op, value, target, span, deeper), thing),
{
    broadcast use {
        things, expr_fits, expr_gives, settled_fits, settled_gives, write_property_fits, gap_fits,
        emit_fits, emit_gives, written_into_fits, written_into_gives, emit_void_fits,
    };

    reveal(BodyView::assign_field);
}

pub(crate) broadcast proof fn assign_index_fits<'a>(
    b: BodyView<'a>,
    receiver: Expr,
    index: Expr,
    op: Option<AstBinary>,
    value: Expr,
    target: Span,
    span: Span,
    deeper: Deeper<'a>,
    thing: Thing,
)
    requires
        fits(b, Thing::Body),
        sturdy(deeper),
        fits(b, thing),
    ensures
        #[trigger] fits(b.assign_index(receiver, index, op, value, target, span, deeper), thing),
{
    broadcast use {
        things, expr_fits, expr_gives, settled_fits, settled_gives, gap_fits, emit_fits, emit_gives,
        written_into_fits, written_into_gives, emit_void_fits,
    };

    reveal(BodyView::assign_index);
}

pub(crate) broadcast proof fn write_property_fits<'a>(
    b: BodyView<'a>,
    object: Value,
    held: TyView,
    name: Seq<char>,
    op: Option<AstBinary>,
    value: Expr,
    target: Span,
    span: Span,
    deeper: Deeper<'a>,
    thing: Thing,
)
    requires
        fits(b, Thing::Body),
        sturdy(deeper),
        fits(b, Thing::Value(object)),
        fits(b, thing),
    ensures
        #[trigger] fits(
            b.write_property(object, held, name, op, value, target, span, deeper),
            thing,
        ),
{
    broadcast use {
        things, gap_fits, emit_fits, emit_gives, written_into_fits, written_into_gives,
        emit_void_fits,
    };

    reveal(BodyView::write_property);
}

pub(crate) broadcast proof fn written_into_fits<'a>(
    b: BodyView<'a>,
    held: Option<Value>,
    wanted: TyView,
    op: Option<AstBinary>,
    value: Expr,
    target: Span,
    span: Span,
    deeper: Deeper<'a>,
    thing: Thing,
)
    requires
        fits(b, Thing::Body),
        sturdy(deeper),
        fits(b, Thing::Maybe(held)),
        fits(b, thing),
    ensures
        #[trigger] fits(b.written_into(held, wanted, op, value, target, span, deeper).0, thing),
{
    broadcast use {
        things, call_declared_fits, call_declared_gives, stored_fits, stored_gives, emit_fits,
        emit_gives, missing_fits, missing_gives,
    };

    reveal(BodyView::written_into);
}

pub(crate) broadcast proof fn written_into_gives<'a>(
    b: BodyView<'a>,
    held: Option<Value>,
    wanted: TyView,
    op: Option<AstBinary>,
    value: Expr,
    target: Span,
    span: Span,
    deeper: Deeper<'a>,
)
    requires
        fits(b, Thing::Body),
        sturdy(deeper),
        fits(b, Thing::Maybe(held)),
    ensures
        #[trigger] fits(
            b.written_into(held, wanted, op, value, target, span, deeper).0,
            Thing::Value(b.written_into(held, wanted, op, value, target, span, deeper).1),
        ),
{
    broadcast use {
        things, call_declared_fits, call_declared_gives, stored_fits, stored_gives, emit_fits,
        emit_gives, missing_fits, missing_gives,
    };

    reveal(BodyView::written_into);
}

} // verus!
