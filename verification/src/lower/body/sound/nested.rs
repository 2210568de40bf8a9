//! That what lowering a body names is there: what is nested inside something.

use vstd::prelude::*;

use crate::ast::Block;
use crate::program::FunctionView;
use crate::span::Span;
use crate::ty::TypeId;

use super::super::deeper::deeper;
use super::super::given::Bound;
use super::super::{BodyView, ContextView};
use super::calls::lower_block_fits;
use super::derived::derive_fits;
use super::expr::{expr_within_fits, expr_within_gives};
use super::leaves::{missing_fits, missing_gives};
use super::patterns::{bind_within_fits, test_within_fits};
use super::stmt::{block_within_fits, stmts_within_fits};
use super::{
    body_fits, callable, calls_fit, context_within, fits, gap_fits, nameable, nearly_well_formed, sturdy, Thing,
};

verus! {

/// What is nested inside something names only what is there, however deep.
pub proof fn nested_is_sturdy(fuel: nat)
    ensures
        sturdy(deeper(fuel)),
    decreases fuel,
{
    broadcast use {
        gap_fits, missing_fits, missing_gives, expr_within_fits, expr_within_gives,
        block_within_fits, stmts_within_fits, test_within_fits, bind_within_fits,
    };

    reveal(sturdy);
    if fuel > 0 {
        nested_is_sturdy((fuel - 1) as nat);
    }
}

/// A body of a function that names only what is there starts that way.
pub proof fn a_fresh_body_fits<'a>(
    context: ContextView<'a>,
    function: FunctionView,
    throws: bool,
    mutated: Seq<Seq<char>>,
    next: u32,
)
    requires
        nearly_well_formed(function),
        function.calls_within(callable(context, next)),
        context_within(context),
    ensures
        fits(BodyView::fresh(context, function, throws, mutated, next), Thing::Body),
{
    reveal(fits);
    reveal(BodyView::fresh);
    let b = BodyView::fresh(context, function, throws, mutated, next);
    assert forall|i: int| 0 <= i < b.function.blocks.len() implies (
    #[trigger] b.function.blocks[i]).within(
        nameable(b.function),
        b.function.slots.len(),
        b.function.blocks.len(),
    ) by {
        assert(function.blocks[i].within(
            nameable(function),
            function.slots.len(),
            function.blocks.len(),
        ));
    }
    assert(calls_fit(b.context, b.function, b.made, b.next_function)) by {
        reveal(calls_fit);
        assert forall|i: int, k: int|
            0 <= i < b.function.blocks.len() && 0 <= k < b.function.blocks[i].insts.len() implies ((
        #[trigger] b.function.blocks[i].insts[k]).kind.func() matches Some(func) ==> func.0
            < callable(context, next)) by {
            assert(b.function.blocks[i].insts[k] == function.blocks[i].insts[k]);
        }
    }
    assert(body_fits(b));
}

/// Lowering a block into a body in which everything named is there gives one in
/// which everything named is there: each instruction names values and slots of its
/// function and functions of the program, and each ending goes to blocks of it, in
/// the function lowered into and in every closure built on the way.
pub proof fn a_lowered_block_names_what_is_there<'a>(
    b: BodyView<'a>,
    bindings: Seq<Bound<'a>>,
    block: Block,
    fuel: nat,
)
    requires
        fits(b, Thing::Body),
    ensures
        fits(b.lower_block(bindings, block, deeper(fuel)), Thing::Body),
{
    nested_is_sturdy(fuel);
    lower_block_fits(b, bindings, block, deeper(fuel), Thing::Body);
}

/// Writing a derived member keeps the same.
pub proof fn a_derived_member_names_what_is_there<'a>(
    b: BodyView<'a>,
    member: Seq<char>,
    owner: TypeId,
    span: Span,
)
    requires
        fits(b, Thing::Body),
    ensures
        fits(b.derive(member, owner, span).0, Thing::Body),
{
    derive_fits(b, member, owner, span, Thing::Body);
}

} // verus!
