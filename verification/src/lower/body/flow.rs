//! How control and bindings meet.

use vstd::prelude::*;

use crate::ast::{Binding, Block, FieldBinding};
use crate::inst::{Target, TargetView, Terminator, TerminatorView, Trap, Value};
use crate::lower::names::{assigned, in_block_view, Seeking};
use crate::lower::types::{convert, converted};
use crate::program::{views, BlockId};
use crate::span::Span;
use crate::text::names;
use crate::ty::{maybe_ty, Ty, TyView};

use super::held::{held_for, Held};
use super::{Arrival, ArrivalView, Body, BodyView};

verus! {

/// The bindings some names reach that hold something, each once, in the order
/// they are named.
pub open spec fn reached_by<'a>(body: BodyView<'a>, held: Seq<Seq<char>>, count: nat) -> Seq<u32>
    decreases count,
{
    if count == 0 {
        Seq::empty()
    } else {
        let earlier = reached_by(body, held, (count - 1) as nat);
        match body.lookup(held[count - 1]) {
            Some(var) => if body.held(var) is Some && !earlier.contains(var) {
                earlier.push(var)
            } else {
                earlier
            },
            None => earlier,
        }
    }
}

/// What each of some bindings holds.
pub open spec fn held_by<'a>(body: BodyView<'a>, vars: Seq<u32>) -> Seq<Value> {
    Seq::new(vars.len(), |i: int| body.def_of(vars[i]))
}

/// The bindings of the first `count` scopes, outermost first.
pub open spec fn vars_in(scopes: Seq<Seq<(Seq<char>, u32)>>, count: nat) -> Seq<u32>
    decreases count,
{
    if count == 0 {
        Seq::empty()
    } else {
        vars_in(scopes, (count - 1) as nat) + Seq::new(
            scopes[count - 1].len(),
            |i: int| scopes[count - 1][i].1,
        )
    }
}

/// Whether every path holds something for a binding.
pub open spec fn held_everywhere(arrivals: Seq<ArrivalView>, var: u32) -> bool {
    forall|k: int| 0 <= k < arrivals.len() ==> (#[trigger] arrivals[k]).defs.contains_key(var)
}

/// Whether every path holds the same for a binding.
pub open spec fn agreed(arrivals: Seq<ArrivalView>, var: u32) -> bool {
    forall|k: int|
        0 <= k < arrivals.len() ==> (#[trigger] arrivals[k]).defs[var] == arrivals[0].defs[var]
}

/// What the paths agree on carries through, and what they do not becomes a
/// parameter of the block they meet in.
pub open spec fn merged<'a>(
    body: BodyView<'a>,
    arrivals: Seq<ArrivalView>,
    join: BlockId,
    vars: Seq<u32>,
    span: Span,
    count: nat,
) -> (BodyView<'a>, Map<u32, Value>, Seq<u32>)
    decreases count,
{
    if count == 0 {
        (body, Map::empty(), Seq::empty())
    } else {
        let (b, defs, params) = merged(body, arrivals, join, vars, span, (count - 1) as nat);
        let var = vars[count - 1];
        if !held_everywhere(arrivals, var) {
            (b, defs, params)
        } else {
            let first = arrivals[0].defs[var];
            if agreed(arrivals, var) {
                (b, defs.insert(var, first), params)
            } else {
                let (b, param) = b.add_block_param(join, b.type_at(first), span);
                (b, defs.insert(var, param), params.push(var))
            }
        }
    }
}

/// What a path passes for the parameters.
pub open spec fn passed(arrival: ArrivalView, params: Seq<u32>) -> Seq<Value> {
    Seq::new(
        params.len(),
        |i: int|
            match held_for(arrival.defs, params[i]) {
                Some(value) => value,
                None => Value(0),
            },
    )
}

/// The first `count` paths sent to the block they meet in, each passing what it
/// carries before what the bindings hold.
pub open spec fn arrived<'a>(
    body: BodyView<'a>,
    arrivals: Seq<ArrivalView>,
    carried: Seq<Seq<Value>>,
    join: BlockId,
    params: Seq<u32>,
    count: nat,
) -> BodyView<'a>
    decreases count,
{
    if count == 0 {
        body
    } else {
        let b = arrived(body, arrivals, carried, join, params, (count - 1) as nat);
        b.rejoin(
            arrivals[count - 1].block,
            join,
            carried[count - 1] + passed(arrivals[count - 1], params),
        )
    }
}

/// Nothing beside the bindings, for each path.
pub open spec fn nothing_carried(count: nat) -> Seq<Seq<Value>> {
    Seq::new(count, |i: int| Seq::empty())
}

/// One value for each path.
pub open spec fn one_carried(values: Seq<Value>) -> Seq<Seq<Value>> {
    Seq::new(values.len(), |i: int| seq![values[i]])
}

impl<'a> BodyView<'a> {
    /// What the checker gave the expression at `span`, as an LIR type.
    #[verifier::opaque]
    pub open spec fn recorded(self, span: Span) -> (BodyView<'a>, TyView) {
        match self.context.facts.spec_type_of(span) {
            Some(ty) => match converted(ty, self.context.ids) {
                Ok(held) => (self, held),
                Err(what) => (self.gap(span, what), TyView::Never),
            },
            None => (self.gap(span, "an expression the checker did not type"@), TyView::Never),
        }
    }

    /// The type the binding declared at `span` holds.
    #[verifier::opaque]
    pub open spec fn declared_type(self, span: Span) -> (BodyView<'a>, Option<TyView>) {
        match self.context.facts.spec_binding(span) {
            Some(ty) => match converted(ty, self.context.ids) {
                Ok(held) => (self, Some(held)),
                Err(what) => (self.gap(span, what), None),
            },
            None => (self, None),
        }
    }

    /// The bindings a block may write to, which are the ones the blocks of a
    /// loop have to pass along.
    #[verifier::opaque]
    pub open spec fn carried(self, body: Block) -> Seq<u32> {
        let held = in_block_view(body, Seeking::Assigned);
        reached_by(self, held, held.len())
    }

    /// What each of some bindings holds.
    #[verifier::opaque]
    pub open spec fn defs_of(self, vars: Seq<u32>) -> Seq<Value> {
        held_by(self, vars)
    }

    /// A block ended, whatever ended it before, with a jump to `join`.
    #[verifier::opaque]
    pub open spec fn rejoin(self, block: BlockId, join: BlockId, args: Seq<Value>) -> BodyView<'a> {
        if block.0 < self.function.blocks.len() {
            BodyView {
                function: self.function.end_block(
                    block,
                    TerminatorView::Jump(TargetView { block: join, args }),
                ),
                ..self
            }
        } else {
            self
        }
    }

    /// The paths that reached the end of a construct merged, each passing what
    /// it carries as well.
    pub open spec fn met(
        self,
        arrivals: Seq<ArrivalView>,
        carried: Seq<Seq<Value>>,
        join: BlockId,
        span: Span,
    ) -> BodyView<'a> {
        let vars = vars_in(self.scopes, self.scopes.len());
        let (b, defs, params) = merged(self, arrivals, join, vars, span, vars.len());
        let b = arrived(b, arrivals, carried, join, params, arrivals.len());
        b.switch_to(join).restore(defs)
    }

    /// The paths that reached the end of a construct merged into `join`. Where
    /// every path left, nothing after this runs.
    #[verifier::opaque]
    pub open spec fn join(self, arrivals: Seq<ArrivalView>, join: BlockId, span: Span) -> BodyView<
        'a,
    > {
        if arrivals.len() == 0 {
            self.switch_to(join).terminate(TerminatorView::Trap(Trap::Unreachable))
        } else {
            self.met(arrivals, nothing_carried(arrivals.len()), join, span)
        }
    }

    /// The same, where every path carries a value, and what it becomes.
    #[verifier::opaque]
    pub open spec fn join_carrying(
        self,
        arrivals: Seq<ArrivalView>,
        values: Seq<Value>,
        join: BlockId,
        ty: TyView,
        span: Span,
    ) -> (BodyView<'a>, Value) {
        let (b, value) = self.add_block_param(join, ty, span);
        if arrivals.len() == 0 || values.len() != arrivals.len() {
            (b.switch_to(join).terminate(TerminatorView::Trap(Trap::Unreachable)), value)
        } else {
            (b.met(arrivals, one_carried(values), join, span), value)
        }
    }

    /// The names a binding holds declared, with nothing written to them yet.
    pub open spec fn declare_binding(self, binding: Binding) -> BodyView<'a>
        decreases binding, 0nat,
    {
        match binding {
            Binding::Name(name) => self.declare(name@).0,
            Binding::Record(fields) => declared_fields(self, fields@, fields@.len()),
            Binding::Tuple(bindings) => self.declare_bindings(bindings@, bindings@.len()),
            Binding::Error => self,
        }
    }

    /// The same for the first `count` of several bindings.
    pub open spec fn declare_bindings(self, bindings: Seq<Binding>, count: nat) -> BodyView<'a>
        decreases bindings, count,
    {
        if count == 0 || count > bindings.len() {
            self
        } else {
            self.declare_bindings(bindings, (count - 1) as nat).declare_binding(
                bindings[count - 1],
            )
        }
    }
}

/// The name a field is bound under.
pub open spec fn bound_name(field: String, bound_as: Option<String>) -> Seq<char> {
    match bound_as {
        Some(name) => name@,
        None => field@,
    }
}

/// The name a field is bound under.
pub fn name_bound<'b>(field: &'b String, bound_as: &'b Option<String>) -> (name: &'b str)
    ensures
        name@ == bound_name(*field, *bound_as),
{
    match bound_as {
        Some(name) => name.as_str(),
        None => field.as_str(),
    }
}

/// The names the first `count` fields of a binding are bound under declared.
pub open spec fn declared_fields<'a>(
    body: BodyView<'a>,
    fields: Seq<FieldBinding>,
    count: nat,
) -> BodyView<'a>
    decreases count,
{
    if count == 0 {
        body
    } else {
        let field = fields[count - 1];
        declared_fields(body, fields, (count - 1) as nat).declare(
            bound_name(field.field, field.bound_as),
        ).0
    }
}

impl<'a> Body<'a> {
    /// What the checker gave the expression at `span`, as an LIR type.
    pub fn recorded(&mut self, span: Span) -> (ty: Ty)
        ensures
            (final(self)@, ty@) == old(self)@.recorded(span),
    {
        proof {
            reveal(BodyView::recorded);
        }
        match self.context.facts.type_of(span) {
            Some(ty) => match convert(ty, self.context.ids) {
                Ok(held) => held,
                Err(what) => {
                    self.gap(span, what);
                    Ty::Never
                },
            },
            None => {
                self.gap(span, "an expression the checker did not type");
                Ty::Never
            },
        }
    }

    /// The type the binding declared at `span` holds.
    pub fn declared_type(&mut self, span: Span) -> (ty: Option<Ty>)
        ensures
            (final(self)@, maybe_ty(ty)) == old(self)@.declared_type(span),
    {
        proof {
            reveal(BodyView::declared_type);
        }
        match self.context.facts.binding(span) {
            Some(ty) => match convert(ty, self.context.ids) {
                Ok(held) => Some(held),
                Err(what) => {
                    self.gap(span, what);
                    None
                },
            },
            None => None,
        }
    }

    /// The bindings a block may write to, which are the ones the blocks of a
    /// loop have to pass along.
    pub fn carried(&self, body: &Block) -> (carried: Vec<u32>)
        ensures
            carried@ == self@.carried(*body),
    {
        let mut held: Vec<String> = Vec::new();
        assert(names(held@) =~= Seq::empty());
        assigned(body, &mut held);
        let ghost named = names(held@);
        let mut carried: Vec<u32> = Vec::new();
        let mut i: usize = 0;
        while i < held.len()
            invariant
                i <= held.len(),
                named == names(held@),
                carried@ == reached_by(self@, named, i as nat),
            decreases held.len() - i,
        {
            assert(named[i as int] == held@[i as int]@);
            match self.lookup(held[i].as_str()) {
                Some(var) => {
                    if self.held(var).is_some() && !contains_var(&carried, var) {
                        carried.push(var);
                    }
                },
                None => {},
            }
            i += 1;
        }
        proof {
            reveal(BodyView::carried);
        }
        carried
    }

    /// What each of some bindings holds.
    pub fn defs_of(&self, vars: &Vec<u32>) -> (held: Vec<Value>)
        ensures
            held@ == self@.defs_of(vars@),
    {
        let mut held: Vec<Value> = Vec::new();
        let mut i: usize = 0;
        while i < vars.len()
            invariant
                i <= vars.len(),
                held@.len() == i,
                forall|k: int| 0 <= k < i ==> #[trigger] held@[k] == self@.def_of(vars@[k]),
            decreases vars.len() - i,
        {
            held.push(self.def_of(vars[i]));
            i += 1;
        }
        proof {
            reveal(BodyView::defs_of);
        }
        assert(held@ =~= held_by(self@, vars@));
        held
    }

    /// Ends a block, whatever ended it before, with a jump to `join`.
    pub fn rejoin(&mut self, block: BlockId, join: BlockId, args: Vec<Value>)
        ensures
            final(self)@ == old(self)@.rejoin(block, join, args@),
    {
        proof {
            reveal(BodyView::rejoin);
        }
        if (block.0 as usize) < self.function.blocks.len() {
            self.function.end_block(block, Terminator::Jump(Target::new(join, args)));
        }
    }

    fn vars(&self) -> (vars: Vec<u32>)
        ensures
            vars@ == vars_in(self@.scopes, self@.scopes.len()),
    {
        let ghost all = self@.scopes;
        let mut vars: Vec<u32> = Vec::new();
        let mut i: usize = 0;
        while i < self.scopes.len()
            invariant
                i <= self.scopes.len(),
                all == super::scope_views(self.scopes@),
                vars@ == vars_in(all, i as nat),
            decreases self.scopes.len() - i,
        {
            let scope = &self.scopes[i];
            let ghost inner = all[i as int];
            assert(inner == super::scope_view(scope@));
            let ghost before = vars@;
            let ghost whole = Seq::new(inner.len(), |k: int| inner[k].1);
            let mut k: usize = 0;
            assert(before + whole.take(0) =~= before);
            while k < scope.len()
                invariant
                    k <= scope.len(),
                    inner == super::scope_view(scope@),
                    whole == Seq::new(inner.len(), |j: int| inner[j].1),
                    vars@ == before + whole.take(k as int),
                decreases scope.len() - k,
            {
                assert(inner[k as int].1 == scope@[k as int].1);
                vars.push(scope[k].1);
                assert(vars@ =~= before + whole.take(k + 1));
                k += 1;
            }
            assert(whole.take(whole.len() as int) =~= whole);
            assert(vars_in(all, (i + 1) as nat) =~= before + whole);
            i += 1;
        }
        vars
    }

    fn meet(
        &mut self,
        arrivals: &Vec<Arrival>,
        carried: &Vec<Vec<Value>>,
        join: BlockId,
        span: Span,
    )
        requires
            arrivals@.len() > 0,
            carried@.len() == arrivals@.len(),
        ensures
            final(self)@ == old(self)@.met(
                views(arrivals@),
                Seq::new(carried@.len(), |k: int| carried@[k]@),
                join,
                span,
            ),
    {
        let ghost start = self@;
        let ghost paths = views(arrivals@);
        let ghost extra = Seq::new(carried@.len(), |k: int| carried@[k]@);
        let vars = self.vars();
        let mut defs: Held<Value> = Held::new();
        let mut params: Vec<u32> = Vec::new();
        let mut i: usize = 0;
        while i < vars.len()
            invariant
                i <= vars.len(),
                arrivals@.len() > 0,
                paths == views(arrivals@),
                (self@, defs@, params@) == merged(start, paths, join, vars@, span, i as nat),
            decreases vars.len() - i,
        {
            let var = vars[i];
            let (everywhere, agree) = compare(arrivals, var);
            if everywhere {
                assert(paths[0] == arrivals@[0]@);
                let first = match arrivals[0].defs.get(var) {
                    Some(value) => value,
                    None => Value(0),
                };
                if agree {
                    defs.insert(var, first);
                } else {
                    let ty = self.type_at(first);
                    let param = self.add_block_param(join, ty, span);
                    defs.insert(var, param);
                    params.push(var);
                }
            }
            i += 1;
        }
        let ghost middle = self@;
        let mut k: usize = 0;
        while k < arrivals.len()
            invariant
                k <= arrivals.len(),
                paths == views(arrivals@),
                carried@.len() == arrivals@.len(),
                extra == Seq::new(carried@.len(), |j: int| carried@[j]@),
                self@ == arrived(middle, paths, extra, join, params@, k as nat),
            decreases arrivals.len() - k,
        {
            assert(paths[k as int] == arrivals@[k as int]@);
            assert(extra[k as int] == carried@[k as int]@);
            let args = pass(&arrivals[k], &carried[k], &params);
            self.rejoin(arrivals[k].block, join, args);
            k += 1;
        }
        self.switch_to(join);
        self.restore(&defs);
    }

    /// Merges the paths that reached the end of a construct into `join`.
    pub fn join(&mut self, arrivals: Vec<Arrival>, join: BlockId, span: Span)
        ensures
            final(self)@ == old(self)@.join(views(arrivals@), join, span),
    {
        proof {
            reveal(BodyView::join);
        }
        if arrivals.len() == 0 {
            self.switch_to(join);
            self.terminate(Terminator::Trap(Trap::Unreachable));
        } else {
            let mut carried: Vec<Vec<Value>> = Vec::new();
            let mut i: usize = 0;
            while i < arrivals.len()
                invariant
                    i <= arrivals.len(),
                    carried@.len() == i,
                    forall|k: int|
                        0 <= k < i ==> (#[trigger] carried@[k])@ == Seq::<Value>::empty(),
                decreases arrivals.len() - i,
            {
                carried.push(crate::inst::no_values());
                i += 1;
            }
            assert(Seq::new(carried@.len(), |k: int| carried@[k]@) =~= nothing_carried(
                arrivals@.len(),
            ));
            self.meet(&arrivals, &carried, join, span);
        }
    }

    /// Merges the paths that reached the end of a construct into `join`, where
    /// every path carries a value, and gives back what it becomes.
    pub fn join_carrying(
        &mut self,
        arrivals: Vec<Arrival>,
        values: Vec<Value>,
        join: BlockId,
        ty: Ty,
        span: Span,
    ) -> (value: Value)
        ensures
            (final(self)@, value) == old(self)@.join_carrying(
                views(arrivals@),
                values@,
                join,
                ty@,
                span,
            ),
    {
        proof {
            reveal(BodyView::join_carrying);
        }
        let value = self.add_block_param(join, ty, span);
        if arrivals.len() == 0 || values.len() != arrivals.len() {
            self.switch_to(join);
            self.terminate(Terminator::Trap(Trap::Unreachable));
        } else {
            let mut carried: Vec<Vec<Value>> = Vec::new();
            let mut i: usize = 0;
            while i < values.len()
                invariant
                    i <= values.len(),
                    carried@.len() == i,
                    forall|k: int|
                        0 <= k < i ==> (#[trigger] carried@[k])@ == seq![values@[k]],
                decreases values.len() - i,
            {
                carried.push(crate::inst::one(values[i]));
                i += 1;
            }
            assert(Seq::new(carried@.len(), |k: int| carried@[k]@) =~= one_carried(values@));
            self.meet(&arrivals, &carried, join, span);
        }
        value
    }

    /// Declares the names a binding holds, with nothing written to them yet.
    pub fn declare_binding(&mut self, binding: &Binding)
        ensures
            final(self)@ == old(self)@.declare_binding(*binding),
        decreases *binding, 0nat,
    {
        match binding {
            Binding::Name(name) => {
                let _ = self.declare(name.as_str());
            },
            Binding::Record(fields) => {
                let ghost start = self@;
                let mut i: usize = 0;
                while i < fields.len()
                    invariant
                        i <= fields.len(),
                        self@ == declared_fields(start, fields@, i as nat),
                    decreases fields.len() - i,
                {
                    let _ = self.declare(name_bound(&fields[i].field, &fields[i].bound_as));
                    i += 1;
                }
            },
            Binding::Tuple(bindings) => self.declare_bindings(bindings),
            Binding::Error => {},
        }
    }

    /// Declares the names several bindings hold.
    pub fn declare_bindings(&mut self, bindings: &Vec<Binding>)
        ensures
            final(self)@ == old(self)@.declare_bindings(bindings@, bindings@.len()),
        decreases bindings@, bindings@.len(),
    {
        let ghost start = self@;
        let mut i: usize = 0;
        while i < bindings.len()
            invariant
                i <= bindings.len(),
                self@ == start.declare_bindings(bindings@, i as nat),
            decreases bindings.len() - i,
        {
            self.declare_binding(&bindings[i]);
            i += 1;
        }
    }
}

/// Adds a path to those that reached the end of a construct.
pub fn push_arrival(arrivals: &mut Vec<Arrival>, arrival: Arrival)
    ensures
        views(final(arrivals)@) == views(old(arrivals)@).push(arrival@),
{
    let ghost before = arrivals@;
    arrivals.push(arrival);
    assert(views(arrivals@) =~= views(before).push(arrival@));
}

fn contains_var(vars: &Vec<u32>, var: u32) -> (found: bool)
    ensures
        found == vars@.contains(var),
{
    let mut i: usize = 0;
    while i < vars.len()
        invariant
            i <= vars.len(),
            forall|k: int| 0 <= k < i ==> vars@[k] != var,
        decreases vars.len() - i,
    {
        if vars[i] == var {
            return true;
        }
        i += 1;
    }
    false
}

fn compare(arrivals: &Vec<Arrival>, var: u32) -> (found: (bool, bool))
    requires
        arrivals@.len() > 0,
    ensures
        found.0 == held_everywhere(views(arrivals@), var),
        found.0 ==> found.1 == agreed(views(arrivals@), var),
{
    let ghost paths = views(arrivals@);
    assert(paths[0] == arrivals@[0]@);
    let first = match arrivals[0].defs.get(var) {
        Some(value) => value,
        None => {
            return (false, false);
        },
    };
    let mut agree = true;
    let mut i: usize = 0;
    while i < arrivals.len()
        invariant
            i <= arrivals.len(),
            paths == views(arrivals@),
            arrivals@.len() > 0,
            paths[0].defs.contains_key(var),
            first == paths[0].defs[var],
            forall|k: int| 0 <= k < i ==> (#[trigger] paths[k]).defs.contains_key(var),
            agree == (forall|k: int| 0 <= k < i ==> (#[trigger] paths[k]).defs[var] == first),
        decreases arrivals.len() - i,
    {
        assert(paths[i as int] == arrivals@[i as int]@);
        match arrivals[i].defs.get(var) {
            Some(value) => {
                if value != first {
                    agree = false;
                }
            },
            None => {
                return (false, false);
            },
        }
        i += 1;
    }
    (true, agree)
}

fn pass(arrival: &Arrival, carried: &Vec<Value>, params: &Vec<u32>) -> (args: Vec<Value>)
    ensures
        args@ == carried@ + passed(arrival@, params@),
{
    let mut args = crate::inst::clone_values(carried);
    let ghost whole = passed(arrival@, params@);
    let mut i: usize = 0;
    assert(carried@ + whole.take(0) =~= carried@);
    while i < params.len()
        invariant
            i <= params.len(),
            whole == passed(arrival@, params@),
            args@ == carried@ + whole.take(i as int),
        decreases params.len() - i,
    {
        let value = match arrival.defs.get(params[i]) {
            Some(value) => value,
            None => Value(0),
        };
        args.push(value);
        assert(whole[i as int] == value);
        assert(args@ =~= carried@ + whole.take(i + 1));
        i += 1;
    }
    assert(whole.take(whole.len() as int) =~= whole);
    args
}

} // verus!
