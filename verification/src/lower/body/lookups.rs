//! What lowering a body asks of what it has lowered so far.

use vstd::prelude::*;

use crate::ast::{BinaryOp as AstBinary, FunctionBody};
use crate::inst::Value;
use crate::lower::names::{assigned_in, in_body, in_function, Seeking};
use crate::program::{views, SlotId};
use crate::text::{names, is_named};
use crate::ty::{maybe_ty, named_tys, Ty, TyView};

use super::flow::push_arrival;
use super::given::{last_name, last_name_view};
use super::kinds::{index_id, index_id_view, optional_inner, optional_inner_view};
use super::queries::{field_ty, field_ty_view};
use super::{Arrival, ArrivalView, Body, BodyView};

verus! {

/// The bindings a closure reaches out of its own scope for, in the order it names
/// them.
pub struct Captures {
    pub names: Vec<String>,
    pub vars: Vec<u32>,
}

/// [`Captures`] with its names as mathematical values.
pub struct CapturesView {
    pub names: Seq<Seq<char>>,
    pub vars: Seq<u32>,
}

impl View for Captures {
    type V = CapturesView;

    open spec fn view(&self) -> CapturesView {
        CapturesView { names: names(self.names@), vars: self.vars@ }
    }
}

/// The bindings the first `count` names reach, each once; nothing where one of
/// them is assigned to, which a closure cannot capture by value.
pub open spec fn captured_by<'a>(
    body: BodyView<'a>,
    named: Seq<Seq<char>>,
    inside: Seq<Seq<char>>,
    count: nat,
) -> Option<CapturesView>
    decreases count,
{
    if count == 0 {
        Some(CapturesView { names: Seq::empty(), vars: Seq::empty() })
    } else {
        match captured_by(body, named, inside, (count - 1) as nat) {
            Some(earlier) => {
                let name = named[count - 1];
                match body.lookup(name) {
                    Some(var) => if body.held(var) is None || earlier.vars.contains(var) {
                        Some(earlier)
                    } else if body.is_mutated(name) || inside.contains(name) {
                        None
                    } else {
                        Some(
                            CapturesView {
                                names: earlier.names.push(name),
                                vars: earlier.vars.push(var),
                            },
                        )
                    },
                    None => Some(earlier),
                }
            },
            None => None,
        }
    }
}

/// Whether a field of a literal has something to hold: what was written, the
/// default beside it, or nothing where it is optional.
pub open spec fn field_given<'a>(
    body: BodyView<'a>,
    ty: TyView,
    declared: Seq<(Seq<char>, TyView)>,
    filled: Seq<Option<Value>>,
    index: nat,
) -> bool {
    filled[index as int] is Some || body.default_for(ty, index_id_view(index)) is Some
        || optional_inner_view(field_ty_view(declared, index_id_view(index))) is Some
}

/// How many fields come before the first with nothing to hold, counted from
/// `from` on.
pub open spec fn fields_given_from<'a>(
    body: BodyView<'a>,
    ty: TyView,
    declared: Seq<(Seq<char>, TyView)>,
    filled: Seq<Option<Value>>,
    from: nat,
) -> nat
    decreases filled.len() - from,
{
    if from >= filled.len() {
        filled.len()
    } else if field_given(body, ty, declared, filled, from) {
        fields_given_from(body, ty, declared, filled, from + 1)
    } else {
        from
    }
}

impl<'a> BodyView<'a> {
    /// The bindings a closure reaches out of its own scope for; nothing where
    /// something assigns to one of them.
    #[verifier::opaque]
    pub open spec fn captures(self, body: FunctionBody) -> Option<CapturesView> {
        let named = in_body(Seq::empty(), body, Seeking::Mentioned);
        captured_by(self, named, in_body(Seq::empty(), body, Seeking::Assigned), named.len())
    }

    /// Whether any of some bindings lives in a slot.
    #[verifier::opaque]
    pub open spec fn any_slot(self, vars: Seq<u32>) -> bool {
        exists|i: int| 0 <= i < vars.len() && self.slot_of(#[trigger] vars[i]) is Some
    }

    /// The slot the binding of a name lives in.
    #[verifier::opaque]
    pub open spec fn slot_named(self, name: Seq<char>) -> Option<SlotId> {
        match self.lookup(name) {
            Some(var) => self.slot_of(var),
            None => None,
        }
    }

    /// The type of a stored field.
    #[verifier::opaque]
    pub open spec fn stored_type(self, ty: TyView, index: u32) -> Option<TyView> {
        match self.fields_of(ty) {
            Some(fields) => Some(field_ty_view(fields, index)),
            None => None,
        }
    }

    /// The tag of the variant the last part of a path names.
    #[verifier::opaque]
    pub open spec fn variant_named(self, ty: TyView, path: Seq<String>) -> Option<u32> {
        match last_name_view(path) {
            Some(name) => self.variant_of(ty, name@),
            None => None,
        }
    }

    /// How many fields of a literal come before the first with nothing to hold.
    #[verifier::opaque]
    pub open spec fn given_fields(
        self,
        ty: TyView,
        declared: Seq<(Seq<char>, TyView)>,
        filled: Seq<Option<Value>>,
    ) -> nat {
        fields_given_from(self, ty, declared, filled, 0)
    }

    /// Whether an operator has a protocol.
    #[verifier::opaque]
    pub open spec fn has_protocol(self, op: Option<AstBinary>) -> bool {
        match op {
            Some(held) => self.protocol(held) is Some,
            None => false,
        }
    }

    /// The path that goes on from here, where one does.
    #[verifier::opaque]
    pub open spec fn arrived_here(self) -> Seq<ArrivalView> {
        if self.left {
            Seq::empty()
        } else {
            seq![self.arrival()]
        }
    }
}

/// The protocol of an operator and its method, by what they are called.
pub open spec fn maybe_pair(found: Option<(&str, &str)>) -> Option<(Seq<char>, Seq<char>)> {
    match found {
        Some(held) => Some((held.0@, held.1@)),
        None => None,
    }
}

/// What was captured.
pub open spec fn maybe_captures(found: Option<Captures>) -> Option<CapturesView> {
    match found {
        Some(held) => Some(held@),
        None => None,
    }
}

impl<'a> Body<'a> {
    /// The protocol of an operator and its method.
    pub fn protocol(&self, op: AstBinary) -> (found: Option<(&'a str, &'a str)>)
        ensures
            maybe_pair(found) == self@.protocol(op),
    {
        match self.protocol_method(op) {
            Some(held) => Some((held.protocol.as_str(), held.method.as_str())),
            None => None,
        }
    }

    /// The bindings a closure reaches out of its own scope for; nothing where
    /// something assigns to one of them.
    pub fn captures(&self, body: &FunctionBody) -> (found: Option<Captures>)
        ensures
            maybe_captures(found) == self@.captures(*body),
    {
        let mut inside: Vec<String> = Vec::new();
        assert(names(inside@) =~= Seq::empty());
        assigned_in(body, &mut inside);
        let mut named: Vec<String> = Vec::new();
        assert(names(named@) =~= Seq::empty());
        in_function(body, &mut named);
        let ghost written = names(named@);
        let ghost within = names(inside@);
        let mut captured = Captures { names: Vec::new(), vars: Vec::new() };
        assert(captured@.names =~= Seq::empty());
        assert(captured@.vars =~= Seq::empty());
        let mut failed = false;
        let mut i: usize = 0;
        while i < named.len()
            invariant
                i <= named.len(),
                written == names(named@),
                within == names(inside@),
                captured_by(self@, written, within, i as nat) == (if failed {
                    None
                } else {
                    Some(captured@)
                }),
            decreases named.len() - i,
        {
            assert(written[i as int] == named@[i as int]@);
            if !failed {
                match self.lookup(named[i].as_str()) {
                    Some(var) => {
                        if self.held(var).is_some() && !has_var(&captured.vars, var) {
                            if self.is_mutated(named[i].as_str()) || is_named(
                                &inside,
                                named[i].as_str(),
                            ) {
                                failed = true;
                            } else {
                                let ghost before = captured@;
                                captured.names.push(named[i].clone());
                                captured.vars.push(var);
                                assert(captured@.names =~= before.names.push(written[i as int]));
                                assert(captured@.vars =~= before.vars.push(var));
                            }
                        }
                    },
                    None => {},
                }
            }
            i += 1;
        }
        proof {
            reveal(BodyView::captures);
        }
        if failed {
            None
        } else {
            Some(captured)
        }
    }

    /// Whether any of some bindings lives in a slot.
    pub fn any_slot(&self, vars: &Vec<u32>) -> (found: bool)
        ensures
            found == self@.any_slot(vars@),
    {
        let mut i: usize = 0;
        while i < vars.len()
            invariant
                i <= vars.len(),
                forall|k: int| 0 <= k < i ==> self@.slot_of(#[trigger] vars@[k]) is None,
            decreases vars.len() - i,
        {
            if self.slot_of(vars[i]).is_some() {
                proof {
                    reveal(BodyView::any_slot);
                }
                return true;
            }
            i += 1;
        }
        proof {
            reveal(BodyView::any_slot);
        }
        false
    }

    /// The slot the binding of a name lives in.
    pub fn slot_named(&self, name: &str) -> (found: Option<SlotId>)
        ensures
            found == self@.slot_named(name@),
    {
        proof {
            reveal(BodyView::slot_named);
        }
        match self.lookup(name) {
            Some(var) => self.slot_of(var),
            None => None,
        }
    }

    /// The type of a stored field.
    pub fn stored_type(&self, ty: &Ty, index: u32) -> (found: Option<Ty>)
        ensures
            maybe_ty(found) == self@.stored_type(ty@, index),
    {
        proof {
            reveal(BodyView::stored_type);
        }
        match self.fields_of(ty) {
            Some(fields) => Some(field_ty(&fields, index)),
            None => None,
        }
    }

    /// The tag of the variant the last part of a path names.
    pub fn variant_named(&self, ty: &Ty, path: &Vec<String>) -> (found: Option<u32>)
        ensures
            found == self@.variant_named(ty@, path@),
    {
        proof {
            reveal(BodyView::variant_named);
        }
        match last_name(path) {
            Some(name) => self.variant_of(ty, name.as_str()),
            None => None,
        }
    }

    /// How many fields of a literal come before the first with nothing to hold.
    pub fn given_fields(
        &self,
        ty: &Ty,
        declared: &Vec<(String, Ty)>,
        filled: &Vec<Option<Value>>,
    ) -> (count: usize)
        ensures
            count == self@.given_fields(ty@, named_tys(declared@), filled@),
    {
        let ghost fields = named_tys(declared@);
        let mut i: usize = 0;
        proof {
            reveal(BodyView::given_fields);
        }
        while i < filled.len()
            invariant
                i <= filled.len(),
                fields == named_tys(declared@),
                self@.given_fields(ty@, fields, filled@) == fields_given_from(
                    self@,
                    ty@,
                    fields,
                    filled@,
                    i as nat,
                ),
            decreases filled.len() - i,
        {
            let there = filled[i].is_some() || self.default_for(ty, index_id(i)).is_some()
                || optional_inner(&field_ty(declared, index_id(i))).is_some();
            if !there {
                return i;
            }
            i += 1;
        }
        i
    }

    /// Whether an operator has a protocol.
    pub fn has_protocol(&self, op: Option<AstBinary>) -> (found: bool)
        ensures
            found == self@.has_protocol(op),
    {
        proof {
            reveal(BodyView::has_protocol);
        }
        match op {
            Some(held) => self.protocol(held).is_some(),
            None => false,
        }
    }

    /// The path that goes on from here, where one does.
    pub fn arrived_here(&self) -> (arrivals: Vec<Arrival>)
        ensures
            views(arrivals@) == self@.arrived_here(),
    {
        proof {
            reveal(BodyView::arrived_here);
        }
        let mut arrivals: Vec<Arrival> = Vec::new();
        assert(views(arrivals@) =~= Seq::empty());
        if !self.has_left() {
            push_arrival(&mut arrivals, self.arrival());
            assert(views(arrivals@) =~= seq![self@.arrival()]);
        }
        arrivals
    }
}

fn has_var(vars: &Vec<u32>, var: u32) -> (found: bool)
    ensures
        found == vars@.contains(var),
{
    let mut i: usize = 0;
    while i < vars.len()
        invariant
            i <= vars.len(),
            forall|k: int| 0 <= k < i ==> vars@[k] != var,
        decreases vars.len() - i,
    {
        if vars[i] == var {
            return true;
        }
        i += 1;
    }
    false
}

/// The paths of two lists, the first before the second.
pub open spec fn all_arrived_view(first: Seq<ArrivalView>, second: Seq<ArrivalView>) -> Seq<
    ArrivalView,
> {
    first + second
}

/// The paths of two lists, the first before the second.
pub fn all_arrived(first: Vec<Arrival>, second: Vec<Arrival>) -> (all: Vec<Arrival>)
    ensures
        views(all@) == all_arrived_view(views(first@), views(second@)),
{
    let mut all = first;
    let mut second = second;
    let ghost left = first@;
    let ghost right = second@;
    all.append(&mut second);
    assert(views(all@) =~= views(left) + views(right));
    all
}

/// Paths that reached the end of a construct, and the value each carries.
pub struct Arrived {
    pub arrivals: Vec<Arrival>,
    pub values: Vec<Value>,
}

/// [`Arrived`] with its paths as mathematical values.
pub struct ArrivedView {
    pub arrivals: Seq<ArrivalView>,
    pub values: Seq<Value>,
}

impl View for Arrived {
    type V = ArrivedView;

    open spec fn view(&self) -> ArrivedView {
        ArrivedView { arrivals: views(self.arrivals@), values: self.values@ }
    }
}

/// No path.
pub open spec fn none_arrived_view() -> ArrivedView {
    ArrivedView { arrivals: Seq::empty(), values: Seq::empty() }
}

/// No path.
pub fn none_arrived() -> (arrived: Arrived)
    ensures
        arrived@ == none_arrived_view(),
{
    let arrived = Arrived { arrivals: Vec::new(), values: Vec::new() };
    assert(arrived@.arrivals =~= Seq::empty());
    assert(arrived@.values =~= Seq::empty());
    arrived
}

/// One more path, and the value it carries.
pub open spec fn more_arrived_view(arrived: ArrivedView, arrival: ArrivalView, value: Value) -> ArrivedView {
    ArrivedView {
        arrivals: arrived.arrivals.push(arrival),
        values: arrived.values.push(value),
    }
}

/// One more path, and the value it carries.
pub fn more_arrived(arrived: Arrived, arrival: Arrival, value: Value) -> (more: Arrived)
    ensures
        more@ == more_arrived_view(arrived@, arrival@, value),
{
    let mut more = arrived;
    push_arrival(&mut more.arrivals, arrival);
    more.values.push(value);
    more
}

} // verus!
